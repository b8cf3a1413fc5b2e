//! Slash-separated relative or absolute paths handled as plain text.

use crate::text::{chars_of, string_from_chars};
use vstd::prelude::*;
use vstd::string::*;

verus! {

/// Index of the last occurrence of `c` in `s`, or -1 when `c` does not occur.
pub open spec fn last_index_of(s: Seq<char>, c: char) -> int
    decreases s.len(),
{
    if s.len() == 0 {
        -1
    } else if s.last() == c {
        s.len() - 1
    } else {
        last_index_of(s.drop_last(), c)
    }
}

/// The directory part of a path: everything before the last `/`, the root for `/x`,
/// the empty path for a bare name, and nothing for the empty path or the root.
pub open spec fn spec_parent(p: Seq<char>) -> Option<Seq<char>> {
    if p.len() == 0 || p == seq!['/'] {
        None
    } else {
        let i = last_index_of(p, '/');
        if i < 0 {
            Some(Seq::<char>::empty())
        } else if i == 0 {
            Some(seq!['/'])
        } else {
            Some(p.subrange(0, i))
        }
    }
}

/// The last component of a path, unless it is empty, `.` or `..`.
pub open spec fn spec_file_name(p: Seq<char>) -> Option<Seq<char>> {
    let last = p.subrange(last_index_of(p, '/') + 1, p.len() as int);
    if last.len() == 0 || last == seq!['.'] || last == seq!['.', '.'] {
        None
    } else {
        Some(last)
    }
}

/// Appends `child` to `base` with one separator; an absolute `child` replaces `base`.
pub open spec fn spec_join(base: Seq<char>, child: Seq<char>) -> Seq<char> {
    if base.len() == 0 || (child.len() > 0 && child[0] == '/') {
        child
    } else if base.last() == '/' {
        base + child
    } else {
        base + seq!['/'] + child
    }
}

/// Splits a path on `/` into its components (empty components included).
pub open spec fn split_on_slash(p: Seq<char>) -> Seq<Seq<char>>
    decreases p.len(),
{
    let i = last_index_of(p, '/');
    if i < 0 {
        seq![p]
    } else {
        proof {
            lemma_last_index_bounds(p, '/');
        }
        split_on_slash(p.subrange(0, i)).push(p.subrange(i + 1, p.len() as int))
    }
}

/// Whether a component carries no meaning in a path (empty or `.`).
pub open spec fn is_trivial_component(c: Seq<char>) -> bool {
    c.len() == 0 || c == seq!['.']
}

/// Joins the meaningful components of a path with `/`.
pub open spec fn join_components(parts: Seq<Seq<char>>) -> Seq<char>
    decreases parts.len(),
{
    if parts.len() == 0 {
        Seq::<char>::empty()
    } else {
        let rest = join_components(parts.drop_last());
        let last = parts.last();
        if is_trivial_component(last) {
            rest
        } else if rest.len() == 0 {
            last
        } else {
            rest + seq!['/'] + last
        }
    }
}

/// Drops empty and `.` components, keeping a leading `/`; an empty result becomes `.`.
pub open spec fn spec_normalize(p: Seq<char>) -> Seq<char> {
    let body = join_components(split_on_slash(p));
    if p.len() > 0 && p[0] == '/' {
        seq!['/'] + body
    } else if body.len() == 0 {
        seq!['.']
    } else {
        body
    }
}

/// A filesystem path held as text.
#[derive(Debug, PartialEq, Eq, PartialOrd, Ord, Hash)]
pub struct FilePath(pub String);

impl View for FilePath {
    type V = Seq<char>;

    open spec fn view(&self) -> Seq<char> {
        self.0@
    }
}

impl Clone for FilePath {
    fn clone(&self) -> (r: Self)
        ensures
            r == *self,
    {
        FilePath(self.0.clone())
    }
}

/// Position of the last `c` in `v`, or `None`.
pub fn find_last(v: &[char], c: char) -> (r: Option<usize>)
    ensures
        match r {
            Some(i) => i as int == last_index_of(v@, c) && i < v@.len(),
            None => last_index_of(v@, c) == -1,
        },
{
    let mut i: usize = v.len();
    assert(v@.subrange(0, v@.len() as int) =~= v@);
    while i > 0
        invariant
            i <= v@.len(),
            last_index_of(v@, c) == last_index_of(v@.subrange(0, i as int), c),
        decreases i,
    {
        let ghost prefix = v@.subrange(0, i as int);
        if v[i - 1] == c {
            return Some(i - 1);
        }
        assert(prefix.drop_last() =~= v@.subrange(0, i - 1));
        i = i - 1;
    }
    None
}

/// Copies `v[from..to]` into a new vector.
pub fn slice_chars(v: &[char], from: usize, to: usize) -> (r: Vec<char>)
    requires
        from <= to <= v@.len(),
    ensures
        r@ == v@.subrange(from as int, to as int),
{
    let mut r: Vec<char> = Vec::new();
    let mut i = from;
    while i < to
        invariant
            from <= i <= to <= v@.len(),
            r@ == v@.subrange(from as int, i as int),
        decreases to - i,
    {
        r.push(v[i]);
        i = i + 1;
        assert(r@ =~= v@.subrange(from as int, i as int));
    }
    r
}

impl FilePath {
    /// Creates a path from text.
    pub fn from_str(s: &str) -> (p: FilePath)
        ensures
            p.0@ == s@,
    {
        FilePath(String::from_str(s))
    }

    /// Returns the path text.
    pub fn as_str(&self) -> (s: &str)
        ensures
            s@ == self.0@,
    {
        self.0.as_str()
    }

    /// Returns the directory containing this path.
    pub fn parent(&self) -> (p: Option<FilePath>)
        ensures
            match p {
                Some(q) => spec_parent(self.0@) == Some(q.0@),
                None => spec_parent(self.0@) is None,
            },
    {
        let v = chars_of(self.0.as_str());
        if v.len() == 0 || (v.len() == 1 && v[0] == '/') {
            assert(v@.len() == 1 ==> v@ =~= seq!['/'] || v@[0] != '/');
            return None;
        }
        assert(v@ != seq!['/']);
        match find_last(&v, '/') {
            None => Some(FilePath(String::new())),
            Some(i) => {
                if i == 0 {
                    let root: Vec<char> = vec!['/'];
                    assert(root@ =~= seq!['/']);
                    Some(FilePath(string_from_chars(&root)))
                } else {
                    let r = slice_chars(&v, 0, i);
                    Some(FilePath(string_from_chars(&r)))
                }
            },
        }
    }

    /// Returns the final component of this path.
    pub fn file_name(&self) -> (name: Option<String>)
        ensures
            match name {
                Some(n) => spec_file_name(self.0@) == Some(n@),
                None => spec_file_name(self.0@) is None,
            },
    {
        let v = chars_of(self.0.as_str());
        let start = match find_last(&v, '/') {
            Some(i) => {
                assert(i < v@.len());
                assert(v@.len() <= usize::MAX);
                i + 1
            },
            None => 0,
        };
        let last = slice_chars(&v, start, v.len());
        let is_dot = last.len() == 1 && last[0] == '.';
        let is_dot_dot = last.len() == 2 && last[0] == '.' && last[1] == '.';
        proof {
            lemma_dot_forms(last@);
        }
        if last.len() == 0 || is_dot || is_dot_dot {
            None
        } else {
            Some(string_from_chars(&last))
        }
    }

    /// Appends a child path to this path.
    pub fn join(&self, child: &str) -> (p: FilePath)
        ensures
            p.0@ == spec_join(self.0@, child@),
    {
        let b = chars_of(self.0.as_str());
        let c = chars_of(child);
        if b.len() == 0 || (c.len() > 0 && c[0] == '/') {
            return FilePath(String::from_str(child));
        }
        let mut s = self.0.clone();
        if b[b.len() - 1] != '/' {
            s.append("/");
        }
        s.append(child);
        proof {
            reveal_strlit("/");
            assert("/"@ =~= seq!['/']);
        }
        FilePath(s)
    }

    /// Removes empty and `.` components.
    pub fn normalize(&self) -> (p: FilePath)
        ensures
            p.0@ == spec_normalize(self.0@),
    {
        let v = chars_of(self.0.as_str());
        let body = normalized_body(&v);
        if v.len() > 0 && v[0] == '/' {
            let mut r: Vec<char> = vec!['/'];
            let mut i: usize = 0;
            while i < body.len()
                invariant
                    i <= body@.len(),
                    r@ == seq!['/'] + body@.subrange(0, i as int),
                decreases body@.len() - i,
            {
                r.push(body[i]);
                i = i + 1;
                assert(r@ =~= seq!['/'] + body@.subrange(0, i as int));
            }
            assert(body@.subrange(0, body@.len() as int) =~= body@);
            FilePath(string_from_chars(&r))
        } else if body.len() == 0 {
            let r: Vec<char> = vec!['.'];
            assert(r@ =~= seq!['.']);
            FilePath(string_from_chars(&r))
        } else {
            FilePath(string_from_chars(&body))
        }
    }
}

/// Decides the `.` and `..` forms from the characters of a component.
pub proof fn lemma_dot_forms(s: Seq<char>)
    ensures
        (s == seq!['.']) == (s.len() == 1 && s[0] == '.'),
        (s == seq!['.', '.']) == (s.len() == 2 && s[0] == '.' && s[1] == '.'),
{
    if s.len() == 1 && s[0] == '.' {
        assert(s =~= seq!['.']);
    }
    if s.len() == 2 && s[0] == '.' && s[1] == '.' {
        assert(s =~= seq!['.', '.']);
    }
}

/// One step of `join_components`: appends one component to already-joined text.
pub open spec fn join_step(rest: Seq<char>, last: Seq<char>) -> Seq<char> {
    if is_trivial_component(last) {
        rest
    } else if rest.len() == 0 {
        last
    } else {
        rest + seq!['/'] + last
    }
}

pub proof fn lemma_last_index_push(s: Seq<char>, c: char, x: char)
    ensures
        last_index_of(s.push(x), c) == (if x == c { s.len() as int } else { last_index_of(s, c) }),
{
    assert(s.push(x).drop_last() =~= s);
}

pub proof fn lemma_last_index_bounds(s: Seq<char>, c: char)
    ensures
        -1 <= last_index_of(s, c) < s.len(),
        last_index_of(s, c) >= 0 ==> s[last_index_of(s, c)] == c,
    decreases s.len(),
{
    if s.len() > 0 && s.last() != c {
        lemma_last_index_bounds(s.drop_last(), c);
    }
}

/// Extending a path by one character either opens a new component or extends the last one.
proof fn lemma_split_step(v: Seq<char>, i: int)
    requires
        0 <= i < v.len(),
    ensures
        split_on_slash(v.subrange(0, i + 1)) == (if v[i] == '/' {
            split_on_slash(v.subrange(0, i)).push(Seq::<char>::empty())
        } else {
            split_on_slash(v.subrange(0, i)).drop_last().push(
                split_on_slash(v.subrange(0, i)).last().push(v[i]),
            )
        }),
        split_on_slash(v.subrange(0, i)).len() > 0,
{
    let a = v.subrange(0, i);
    let b = v.subrange(0, i + 1);
    assert(b =~= a.push(v[i]));
    lemma_last_index_push(a, '/', v[i]);
    lemma_last_index_bounds(a, '/');
    let l = last_index_of(a, '/');
    if v[i] == '/' {
        assert(b.subrange(0, i) =~= a);
        assert(b.subrange(i + 1, b.len() as int) =~= Seq::<char>::empty());
    } else if l < 0 {
        assert(split_on_slash(a) == seq![a]);
        assert(split_on_slash(b) == seq![b]);
    } else {
        assert(b.subrange(0, l) =~= a.subrange(0, l));
        assert(b.subrange(l + 1, b.len() as int) =~= a.subrange(l + 1, a.len() as int).push(v[i]));
    }
}

proof fn lemma_join_components_push(parts: Seq<Seq<char>>, last: Seq<char>)
    ensures
        join_components(parts.push(last)) == join_step(join_components(parts), last),
{
    assert(parts.push(last).drop_last() =~= parts);
}

/// Computes `join_components(split_on_slash(v))` in one left-to-right pass.
fn normalized_body(v: &[char]) -> (r: Vec<char>)
    ensures
        r@ == join_components(split_on_slash(v@)),
{
    let mut done: Vec<char> = Vec::new();
    let mut cur: Vec<char> = Vec::new();
    let mut i: usize = 0;
    proof {
        let e = v@.subrange(0, 0);
        assert(e =~= Seq::<char>::empty());
        assert(last_index_of(e, '/') == -1);
        assert(split_on_slash(e) == seq![e]);
        assert(seq![e].drop_last() =~= Seq::<Seq<char>>::empty());
    }
    while i < v.len()
        invariant
            i <= v@.len(),
            split_on_slash(v@.subrange(0, i as int)).len() > 0,
            done@ == join_components(split_on_slash(v@.subrange(0, i as int)).drop_last()),
            cur@ == split_on_slash(v@.subrange(0, i as int)).last(),
        decreases v@.len() - i,
    {
        proof {
            lemma_split_step(v@, i as int);
        }
        let ghost parts = split_on_slash(v@.subrange(0, i as int));
        if v[i] == '/' {
            let ghost joined = join_step(done@, cur@);
            done = join_step_exec(done, &cur);
            cur = Vec::new();
            proof {
                assert(parts =~= parts.drop_last().push(parts.last()));
                lemma_join_components_push(parts.drop_last(), parts.last());
                assert(parts.push(Seq::<char>::empty()).drop_last() =~= parts);
            }
        } else {
            cur.push(v[i]);
            proof {
                let np = parts.drop_last().push(parts.last().push(v@[i as int]));
                assert(np.drop_last() =~= parts.drop_last());
            }
        }
        i = i + 1;
    }
    proof {
        assert(v@.subrange(0, v@.len() as int) =~= v@);
        let parts = split_on_slash(v@);
        assert(parts =~= parts.drop_last().push(parts.last()));
        lemma_join_components_push(parts.drop_last(), parts.last());
    }
    join_step_exec(done, &cur)
}

/// Appends one component to already-joined text.
fn join_step_exec(rest: Vec<char>, last: &Vec<char>) -> (r: Vec<char>)
    ensures
        r@ == join_step(rest@, last@),
{
    let trivial = last.len() == 0 || (last.len() == 1 && last[0] == '.');
    proof {
        lemma_dot_forms(last@);
    }
    if trivial {
        rest
    } else if rest.len() == 0 {
        last.clone()
    } else {
        let mut r = rest;
        let ghost r0 = r@;
        r.push('/');
        let mut i: usize = 0;
        while i < last.len()
            invariant
                i <= last@.len(),
                r@ == r0 + seq!['/'] + last@.subrange(0, i as int),
            decreases last@.len() - i,
        {
            r.push(last[i]);
            i = i + 1;
            assert(r@ =~= r0 + seq!['/'] + last@.subrange(0, i as int));
        }
        assert(last@.subrange(0, last@.len() as int) =~= last@);
        r
    }
}

} // verus!
