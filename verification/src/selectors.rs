//! Task selectors: comma-separated task names on the command line, where `_` is a
//! wildcard (it needs no quoting in shells, unlike `*`).

use crate::recipe::{strings_view, tasks_view, Task, TaskView};
use crate::text::{chars_of, has_prefix, join3, string_from_chars, trim, trim_chars};
use vstd::prelude::*;

verus! {

/// Splitting the first `k` characters of `s` at `sep`: the finished pieces and the piece
/// still open.
pub open spec fn split_prefix(s: Seq<char>, sep: char, k: int) -> (Seq<Seq<char>>, Seq<char>)
    decreases k,
{
    if k <= 0 {
        (Seq::empty(), Seq::empty())
    } else {
        let (pieces, current) = split_prefix(s, sep, k - 1);
        if s[k - 1] == sep {
            (pieces.push(current), Seq::empty())
        } else {
            (pieces, current.push(s[k - 1]))
        }
    }
}

/// The pieces of `s` between occurrences of `sep`, as `str::split` yields them.
pub open spec fn split_on(s: Seq<char>, sep: char) -> Seq<Seq<char>> {
    let (pieces, current) = split_prefix(s, sep, s.len() as int);
    pieces.push(current)
}

/// Splits `s` at every `sep`.
pub fn split_chars(s: &Vec<char>, sep: char) -> (pieces: Vec<Vec<char>>)
    ensures
        pieces@.map_values(|p: Vec<char>| p@) == split_on(s@, sep),
{
    let mut pieces: Vec<Vec<char>> = Vec::new();
    let mut current: Vec<char> = Vec::new();
    let mut k: usize = 0;
    while k < s.len()
        invariant
            k <= s@.len(),
            split_prefix(s@, sep, k as int) == (pieces@.map_values(|p: Vec<char>| p@), current@),
        decreases s@.len() - k,
    {
        let ghost before = pieces@.map_values(|p: Vec<char>| p@);
        if s[k] == sep {
            let finished = current;
            current = Vec::new();
            let ghost fv = finished@;
            pieces.push(finished);
            assert(pieces@.map_values(|p: Vec<char>| p@) =~= before.push(fv));
            assert(current@ =~= Seq::<char>::empty());
        } else {
            current.push(s[k]);
        }
        k = k + 1;
    }
    let ghost before = pieces@.map_values(|p: Vec<char>| p@);
    let ghost cv = current@;
    pieces.push(current);
    assert(pieces@.map_values(|p: Vec<char>| p@) =~= before.push(cv));
    pieces
}

/// The trimmed, non-empty pieces among `ps`.
pub open spec fn trimmed_nonempty(ps: Seq<Seq<char>>) -> Seq<Seq<char>>
    decreases ps.len(),
{
    if ps.len() == 0 {
        Seq::empty()
    } else {
        let rest = trimmed_nonempty(ps.drop_last());
        let t = trim(ps.last());
        if t.len() > 0 {
            rest.push(t)
        } else {
            rest
        }
    }
}

/// The selectors given by command-line task arguments: each argument split at commas,
/// each piece trimmed, empty pieces dropped.
pub open spec fn selector_parts(names: Seq<Seq<char>>) -> Seq<Seq<char>>
    decreases names.len(),
{
    if names.len() == 0 {
        Seq::empty()
    } else {
        selector_parts(names.drop_last()) + trimmed_nonempty(split_on(names.last(), ','))
    }
}

/// Splits command-line task arguments into selectors.
pub fn split_task_selectors(task_names: &Vec<String>) -> (selectors: Vec<String>)
    ensures
        strings_view(selectors@) == selector_parts(strings_view(task_names@)),
{
    let mut selectors: Vec<String> = Vec::new();
    let mut i: usize = 0;
    while i < task_names.len()
        invariant
            i <= task_names@.len(),
            strings_view(selectors@) == selector_parts(strings_view(task_names@).take(i as int)),
        decreases task_names@.len() - i,
    {
        let ghost names = strings_view(task_names@);
        assert(names.take(i + 1).drop_last() =~= names.take(i as int));
        assert(names.take(i + 1).last() == task_names@[i as int]@);
        let chars = chars_of(task_names[i].as_str());
        let pieces = split_chars(&chars, ',');
        let ghost ps = pieces@.map_values(|p: Vec<char>| p@);
        let ghost base = strings_view(selectors@);
        let mut j: usize = 0;
        assert(ps.take(0) =~= Seq::<Seq<char>>::empty());
        assert(base + trimmed_nonempty(ps.take(0)) =~= base);
        while j < pieces.len()
            invariant
                j <= pieces@.len(),
                ps == pieces@.map_values(|p: Vec<char>| p@),
                strings_view(selectors@) == base + trimmed_nonempty(ps.take(j as int)),
            decreases pieces@.len() - j,
        {
            assert(ps.take(j + 1).drop_last() =~= ps.take(j as int));
            assert(ps.take(j + 1).last() == pieces@[j as int]@);
            let t = trim_chars(&pieces[j]);
            let ghost prev = strings_view(selectors@);
            if t.len() > 0 {
                let s = string_from_chars(&t);
                selectors.push(s);
                assert(strings_view(selectors@) =~= prev.push(t@));
                assert(base + trimmed_nonempty(ps.take(j + 1)) =~= (base + trimmed_nonempty(
                    ps.take(j as int),
                )).push(t@));
            }
            j = j + 1;
        }
        assert(ps.take(pieces@.len() as int) =~= ps);
        i = i + 1;
    }
    assert(strings_view(task_names@).take(task_names@.len() as int) =~= strings_view(task_names@));
    selectors
}

/// Position of the first occurrence of `p` in `s` at or after `from`.
pub open spec fn find_from(s: Seq<char>, p: Seq<char>, from: int) -> Option<int>
    decreases s.len() + 1 - from,
{
    if from < 0 || from + p.len() > s.len() {
        None
    } else if s.subrange(from, from + p.len()) == p {
        Some(from)
    } else {
        find_from(s, p, from + 1)
    }
}

/// Whether `rest` is the selector parts from `index` on with any text, possibly empty,
/// between each two of them: it begins with `parts[index]`, ends with the last part, and
/// every `_` between two parts stands for any text.
pub open spec fn match_parts(rest: Seq<char>, parts: Seq<Seq<char>>, index: int) -> bool
    decreases parts.len() - index,
{
    if index < 0 || index >= parts.len() {
        false
    } else if index == parts.len() - 1 {
        rest == parts[index]
    } else {
        &&& has_prefix(rest, parts[index])
        &&& exists|k: int|
            parts[index].len() <= k <= rest.len() && match_parts(
                #[trigger] rest.subrange(k, rest.len() as int),
                parts,
                index + 1,
            )
    }
}

/// Whether the selector split into `parts` ends with a wildcard.
pub open spec fn has_trailing_wildcard(parts: Seq<Seq<char>>) -> bool {
    parts.len() > 0 && parts.last().len() == 0
}

/// Whether the last selector part is empty, i.e. the selector ends with `_`.
pub fn selector_has_trailing_wildcard(pattern_parts: &Vec<Vec<char>>) -> (b: bool)
    ensures
        b == has_trailing_wildcard(pattern_parts@.map_values(|p: Vec<char>| p@)),
{
    pattern_parts.len() > 0 && pattern_parts[pattern_parts.len() - 1].len() == 0
}

pub(crate) fn find_from_exec(s: &Vec<char>, from: usize, p: &Vec<char>) -> (r: Option<usize>)
    requires
        from <= s@.len(),
    ensures
        match r {
            Some(k) => find_from(s@.subrange(from as int, s@.len() as int), p@, 0) == Some(k - from)
                && from <= k && k + p@.len() <= s@.len(),
            None => find_from(s@.subrange(from as int, s@.len() as int), p@, 0) is None,
        },
{
    let ghost rest = s@.subrange(from as int, s@.len() as int);
    let mut k: usize = from;
    while k <= s.len() && p.len() <= s.len() - k
        invariant
            from <= k,
            k <= s@.len() + 1,
            rest == s@.subrange(from as int, s@.len() as int),
            find_from(rest, p@, 0) == find_from(rest, p@, k - from),
        decreases s@.len() + 1 - k,
    {
        let mut same = true;
        let mut m: usize = 0;
        let n = s.len();
        while m < p.len()
            invariant
                m <= p@.len(),
                n == s@.len(),
                k + p@.len() <= n,
                same == (forall|q: int| 0 <= q < m ==> s@[k + q] == p@[q]),
            decreases p@.len() - m,
        {
            if s[k + m] != p[m] {
                same = false;
            }
            m = m + 1;
        }
        proof {
            let window = rest.subrange(k - from, k - from + p@.len());
            if same {
                assert(window =~= p@);
            } else {
                let q = choose|q: int| 0 <= q < p@.len() && s@[k + q] != p@[q];
                assert(window[q] != p@[q]);
            }
        }
        if same {
            return Some(k);
        }
        k = k + 1;
    }
    None
}

/// Whether `part` occurs in `name` at `start`.
fn part_at(name: &Vec<char>, start: usize, part: &Vec<char>) -> (b: bool)
    requires
        start <= name@.len(),
    ensures
        b == has_prefix(name@.subrange(start as int, name@.len() as int), part@),
{
    let ghost rest = name@.subrange(start as int, name@.len() as int);
    if part.len() > name.len() - start {
        return false;
    }
    let n = name.len();
    let mut m: usize = 0;
    while m < part.len()
        invariant
            n == name@.len(),
            m <= part@.len(),
            start <= name@.len(),
            start + part@.len() <= name@.len(),
            rest == name@.subrange(start as int, name@.len() as int),
            forall|q: int| 0 <= q < m ==> name@[start + q] == part@[q],
        decreases part@.len() - m,
    {
        if name[start + m] != part[m] {
            assert(rest.subrange(0, part@.len() as int)[m as int] != part@[m as int]);
            return false;
        }
        m = m + 1;
    }
    assert(rest.subrange(0, part@.len() as int) =~= part@);
    true
}

/// Whether the text of `name` from `start` on matches the parts from `index` on, trying
/// every length of text for each `_`.
fn match_parts_from(name: &Vec<char>, start: usize, parts: &Vec<Vec<char>>, index: usize) -> (b: bool)
    requires
        start <= name@.len(),
        index < parts@.len(),
    ensures
        b == match_parts(
            name@.subrange(start as int, name@.len() as int),
            parts@.map_values(|p: Vec<char>| p@),
            index as int,
        ),
    decreases parts@.len() - index,
{
    let ghost pv = parts@.map_values(|p: Vec<char>| p@);
    let ghost rest = name@.subrange(start as int, name@.len() as int);
    let part = &parts[index];
    assert(pv[index as int] == part@);
    if !part_at(name, start, part) {
        proof {
            if rest == part@ {
                assert(rest.subrange(0, part@.len() as int) =~= rest);
            }
        }
        return false;
    }
    let last = parts.len() - 1;
    if index == last {
        proof {
            if rest.len() == part@.len() {
                assert(rest =~= rest.subrange(0, part@.len() as int));
            }
        }
        return name.len() - start == part.len();
    }
    let next = index + 1;
    let n = name.len();
    assert(part@.len() <= rest.len());
    let mut k: usize = start + part.len();
    while k < n
        invariant
            n == name@.len(),
            has_prefix(rest, part@),
            start + part@.len() <= k <= name@.len(),
            next == index + 1,
            next < parts@.len(),
            pv == parts@.map_values(|p: Vec<char>| p@),
            rest == name@.subrange(start as int, name@.len() as int),
            part@ == pv[index as int],
            forall|j: int|
                start + part@.len() <= j < k ==> !#[trigger] match_parts(
                    name@.subrange(j, name@.len() as int),
                    pv,
                    index + 1,
                ),
        decreases name@.len() - k,
    {
        if match_parts_from(name, k, parts, next) {
            assert(rest.subrange(k - start, rest.len() as int) =~= name@.subrange(k as int, name@.len() as int));
            assert(match_parts(rest.subrange(k - start, rest.len() as int), pv, index + 1));
            return true;
        }
        k = k + 1;
    }
    if match_parts_from(name, k, parts, next) {
        assert(rest.subrange(k - start, rest.len() as int) =~= name@.subrange(k as int, name@.len() as int));
        assert(match_parts(rest.subrange(k - start, rest.len() as int), pv, index + 1));
        return true;
    }
    proof {
        assert forall|j: int|
            part@.len() <= j <= rest.len() implies !#[trigger] match_parts(
            rest.subrange(j, rest.len() as int),
            pv,
            index + 1,
        ) by {
            assert(rest.subrange(j, rest.len() as int) =~= name@.subrange(start + j, name@.len() as int));
            assert(!match_parts(name@.subrange(start + j, name@.len() as int), pv, index + 1));
        }
        if match_parts(rest, pv, index as int) {
            let w = choose|w: int|
                part@.len() <= w <= rest.len() && match_parts(
                    #[trigger] rest.subrange(w, rest.len() as int),
                    pv,
                    index + 1,
                );
            assert(!match_parts(rest.subrange(w, rest.len() as int), pv, index + 1));
        }
    }
    false
}

/// Whether `task_name` matches the selector split at `_` into `pattern_parts`.
pub fn task_name_matches_selector(task_name: &Vec<char>, pattern_parts: &Vec<Vec<char>>) -> (b: bool)
    ensures
        b == match_parts(task_name@, pattern_parts@.map_values(|p: Vec<char>| p@), 0),
{
    if pattern_parts.len() == 0 {
        return false;
    }
    assert(task_name@.subrange(0, task_name@.len() as int) =~= task_name@);
    match_parts_from(task_name, 0, pattern_parts, 0)
}

/// The names of the tasks that the wildcard selector `selector` matches, in recipe order.
pub open spec fn wildcard_matches(tasks: Seq<TaskView>, selector: Seq<char>) -> Seq<Seq<char>>
    decreases tasks.len(),
{
    if tasks.len() == 0 {
        Seq::empty()
    } else {
        let rest = wildcard_matches(tasks.drop_last(), selector);
        if match_parts(tasks.last().name, split_on(selector, '_'), 0) {
            rest.push(tasks.last().name)
        } else {
            rest
        }
    }
}

/// Splitting a text without separators followed by one separator: the first `k` characters
/// form the open piece and no piece is finished yet.
proof fn lemma_split_prefix_before_separator(prefix: Seq<char>, sep: char, k: int)
    requires
        0 <= k <= prefix.len(),
        forall|j: int| 0 <= j < prefix.len() ==> prefix[j] != sep,
    ensures
        split_prefix(prefix.push(sep), sep, k) == (Seq::<Seq<char>>::empty(), prefix.take(k)),
    decreases k,
{
    if k > 0 {
        lemma_split_prefix_before_separator(prefix, sep, k - 1);
        assert(prefix.take(k - 1).push(prefix[k - 1]) =~= prefix.take(k));
    }
}

/// A selector whose only `_` ends it matches exactly the task names that begin with the
/// text before the `_`: `test_` matches the tasks whose names start with `test`.
pub proof fn lemma_trailing_wildcard_matches_prefix(prefix: Seq<char>, name: Seq<char>)
    requires
        prefix.len() > 0,
        !contains_char(prefix, '_'),
    ensures
        match_parts(name, split_on(prefix.push('_'), '_'), 0) == has_prefix(name, prefix),
{
    let selector = prefix.push('_');
    assert forall|j: int| 0 <= j < prefix.len() implies prefix[j] != '_' by {
        if prefix[j] == '_' {
            assert(contains_char(prefix, '_'));
        }
    }
    lemma_split_prefix_before_separator(prefix, '_', prefix.len() as int);
    assert(prefix.take(prefix.len() as int) =~= prefix);
    let parts = split_on(selector, '_');
    assert(parts =~= seq![prefix, Seq::<char>::empty()]);
    assert(parts[0] == prefix);
    if has_prefix(name, prefix) {
        let rest = name.subrange(name.len() as int, name.len() as int);
        assert(rest =~= parts[1]);
        assert(match_parts(rest, parts, 1));
        let k = name.len() as int;
        assert(parts[0].len() <= k <= name.len());
        assert(match_parts(name.subrange(k, name.len() as int), parts, 0int + 1));
        assert(parts.len() == 2);
        assert(has_prefix(name, parts[0]));
        assert(match_parts(name, parts, 0));
    }
    if match_parts(name, parts, 0) {
        assert(has_prefix(name, parts[0]));
    }
    assert(match_parts(name, parts, 0) == has_prefix(name, prefix));
}

/// Whether `s` contains `c`.
pub open spec fn contains_char(s: Seq<char>, c: char) -> bool {
    exists|k: int| 0 <= k < s.len() && s[k] == c
}

/// Expands the selectors from the `i`-th on after the names `acc`: the task names they
/// stand for, or the message for the first wildcard selector that matches no task.
pub open spec fn expand_from(
    tasks: Seq<TaskView>,
    selectors: Seq<Seq<char>>,
    i: int,
    acc: Seq<Seq<char>>,
) -> Result<Seq<Seq<char>>, Seq<char>>
    decreases selectors.len() - i,
{
    if i < 0 || i >= selectors.len() {
        Ok(acc)
    } else {
        let selector = selectors[i];
        if contains_char(selector, '_') {
            let found = wildcard_matches(tasks, selector);
            if found.len() == 0 {
                Err("task specifier `"@ + selector + "` did not match any tasks"@)
            } else {
                expand_from(tasks, selectors, i + 1, acc + found)
            }
        } else {
            expand_from(tasks, selectors, i + 1, acc.push(selector))
        }
    }
}

/// The task names that the selectors stand for, in order, or the message for the first
/// wildcard selector that matches no task.
pub open spec fn expand_selectors(tasks: Seq<TaskView>, selectors: Seq<Seq<char>>) -> Result<
    Seq<Seq<char>>,
    Seq<char>,
> {
    expand_from(tasks, selectors, 0, Seq::empty())
}

fn contains_char_exec(s: &Vec<char>, c: char) -> (b: bool)
    ensures
        b == contains_char(s@, c),
{
    let mut k: usize = 0;
    while k < s.len()
        invariant
            k <= s@.len(),
            forall|m: int| 0 <= m < k ==> s@[m] != c,
        decreases s@.len() - k,
    {
        if s[k] == c {
            return true;
        }
        k = k + 1;
    }
    false
}

/// The names of the tasks matching a wildcard selector, or an error when none does.
pub fn expand_wildcard_selector(tasks: &Vec<Task>, selector: &str) -> (r: Result<Vec<String>, String>)
    ensures
        match r {
            Ok(names) => strings_view(names@) == wildcard_matches(tasks_view(tasks@), selector@)
                && names@.len() > 0,
            Err(e) => wildcard_matches(tasks_view(tasks@), selector@).len() == 0 && e@
                == "task specifier `"@ + selector@ + "` did not match any tasks"@,
        },
{
    let selector_chars = chars_of(selector);
    let parts = split_chars(&selector_chars, '_');
    let ghost tv = tasks_view(tasks@);
    let mut names: Vec<String> = Vec::new();
    let mut i: usize = 0;
    while i < tasks.len()
        invariant
            i <= tasks@.len(),
            tv == tasks_view(tasks@),
            selector_chars@ == selector@,
            parts@.map_values(|p: Vec<char>| p@) == split_on(selector@, '_'),
            strings_view(names@) == wildcard_matches(tv.take(i as int), selector@),
        decreases tasks@.len() - i,
    {
        assert(tv.take(i + 1).drop_last() =~= tv.take(i as int));
        assert(tv.take(i + 1).last() == tasks@[i as int]@);
        let name_chars = chars_of(tasks[i].name.as_str());
        if task_name_matches_selector(&name_chars, &parts) {
            let ghost prev = strings_view(names@);
            let name = tasks[i].name.0.clone();
            names.push(name);
            assert(strings_view(names@) =~= prev.push(tasks@[i as int].name@));
        }
        i = i + 1;
    }
    assert(tv.take(tasks@.len() as int) =~= tv);
    if names.len() == 0 {
        return Err(join3("task specifier `", selector, "` did not match any tasks"));
    }
    Ok(names)
}

/// Expands wildcard selectors into the task names they match; other selectors stand for
/// themselves.
pub fn expand_task_selectors(tasks: &Vec<Task>, selectors: &Vec<String>) -> (r: Result<
    Vec<String>,
    String,
>)
    ensures
        match r {
            Ok(names) => expand_selectors(tasks_view(tasks@), strings_view(selectors@)) == Ok::<
                Seq<Seq<char>>,
                Seq<char>,
            >(strings_view(names@)),
            Err(e) => expand_selectors(tasks_view(tasks@), strings_view(selectors@)) == Err::<
                Seq<Seq<char>>,
                Seq<char>,
            >(e@),
        },
{
    let ghost sv = strings_view(selectors@);
    let mut expanded: Vec<String> = Vec::new();
    let mut i: usize = 0;
    assert(strings_view(expanded@) =~= Seq::<Seq<char>>::empty());
    while i < selectors.len()
        invariant
            i <= selectors@.len(),
            sv == strings_view(selectors@),
            expand_selectors(tasks_view(tasks@), sv) == expand_from(
                tasks_view(tasks@),
                sv,
                i as int,
                strings_view(expanded@),
            ),
        decreases selectors@.len() - i,
    {
        assert(sv[i as int] == selectors@[i as int]@);
        let selector = &selectors[i];
        let chars = chars_of(selector.as_str());
        let ghost prev = strings_view(expanded@);
        if contains_char_exec(&chars, '_') {
            match expand_wildcard_selector(tasks, selector.as_str()) {
                Ok(found) => {
                    let mut j: usize = 0;
                    while j < found.len()
                        invariant
                            j <= found@.len(),
                            strings_view(expanded@) == prev + strings_view(found@).take(j as int),
                        decreases found@.len() - j,
                    {
                        let ghost before = strings_view(expanded@);
                        expanded.push(found[j].clone());
                        assert(strings_view(expanded@) =~= before.push(found@[j as int]@));
                        assert(prev + strings_view(found@).take(j + 1) =~= (prev + strings_view(
                            found@,
                        ).take(j as int)).push(found@[j as int]@));
                        j = j + 1;
                    }
                    assert(strings_view(found@).take(found@.len() as int) =~= strings_view(found@));
                },
                Err(e) => {
                    return Err(e);
                },
            }
        } else {
            expanded.push(selector.clone());
            assert(strings_view(expanded@) =~= prev.push(selector@));
        }
        i = i + 1;
    }
    Ok(expanded)
}

} // verus!
