//! Names and text of the per-run artifacts under `.nao/runs`: directories, log file
//! names, timestamps and task log contents.

use crate::file_path::{spec_file_name, spec_join, spec_normalize, spec_parent, FilePath};
use crate::process_command::directory_or_current;
use crate::run_outcome::{LogLine, OutputStream};
use crate::output_framer::stream_name;
use crate::recipe::strings_view;
use crate::text::{chars_of, decimal, join2, join3, joined, string_from_chars, str_equals, u128_to_string};
use vstd::prelude::*;
use vstd::string::*;

verus! {

/// The `.nao/runs` directory for a recipe: next to `.nao/nao.kdl`, or in a `.nao`
/// directory beside any other recipe file.
pub open spec fn run_root_directory(recipe_path: Seq<char>) -> Seq<char> {
    let dir = directory_or_current(spec_parent(recipe_path));
    if spec_file_name(recipe_path) == Some("nao.kdl"@) && spec_file_name(dir) == Some(".nao"@) {
        spec_normalize(spec_join(dir, "runs"@))
    } else {
        spec_normalize(spec_join(spec_join(dir, ".nao"@), "runs"@))
    }
}

/// Returns the `.nao/runs` directory associated with a recipe path.
pub fn run_root_directory_for_recipe_path(recipe_path: &FilePath) -> (d: FilePath)
    ensures
        d@ == run_root_directory(recipe_path@),
{
    let parent = recipe_path.parent();
    proof {
        reveal_strlit(".");
    }
    let recipe_directory = match parent {
        Some(p) => if chars_of(p.as_str()).len() > 0 {
            p
        } else {
            FilePath::from_str(".")
        },
        None => FilePath::from_str("."),
    };
    let is_recipe = match recipe_path.file_name() {
        Some(n) => str_equals(n.as_str(), "nao.kdl"),
        None => false,
    };
    let in_nao = match recipe_directory.file_name() {
        Some(n) => str_equals(n.as_str(), ".nao"),
        None => false,
    };
    if is_recipe && in_nao {
        return recipe_directory.join("runs").normalize();
    }
    recipe_directory.join(".nao").join("runs").normalize()
}

/// Whether `c` may stand in a file name component as it is.
pub open spec fn is_file_safe(c: char) -> bool {
    ('a' <= c && c <= 'z') || ('A' <= c && c <= 'Z') || ('0' <= c && c <= '9') || c == '-' || c
        == '_' || c == '.' || c == '+'
}

/// `component` with every character that is not file-safe replaced by `_`.
pub open spec fn sanitized(component: Seq<char>) -> Seq<char> {
    Seq::new(component.len(), |i: int| if is_file_safe(component[i]) { component[i] } else { '_' })
}

/// Replaces every character outside `[a-zA-Z0-9._+-]` with `_`.
pub fn sanitize_file_component(component: &str) -> (s: String)
    ensures
        s@ == sanitized(component@),
{
    let chars = chars_of(component);
    let mut out: Vec<char> = Vec::new();
    let mut i: usize = 0;
    while i < chars.len()
        invariant
            i <= chars@.len(),
            chars@ == component@,
            out@ == sanitized(component@).take(i as int),
        decreases chars@.len() - i,
    {
        let c = chars[i];
        let safe = ('a' <= c && c <= 'z') || ('A' <= c && c <= 'Z') || ('0' <= c && c <= '9') || c
            == '-' || c == '_' || c == '.' || c == '+';
        if safe {
            out.push(c);
        } else {
            out.push('_');
        }
        assert(out@ =~= sanitized(component@).take(i + 1));
        i = i + 1;
    }
    assert(sanitized(component@).take(chars@.len() as int) =~= sanitized(component@));
    string_from_chars(&out)
}

/// Whether `c` is an ASCII letter or digit, `-`, `_`, `.` or `+`.
pub open spec fn plain_file_char(c: char) -> bool {
    ||| 'a' <= c <= 'z'
    ||| 'A' <= c <= 'Z'
    ||| '0' <= c <= '9'
    ||| c == '-' || c == '_' || c == '.' || c == '+'
}

/// Sanitizing law: a file name component keeps its length, keeps every ASCII letter and
/// digit, `-`, `_`, `.` and `+` in place, and has `_` in place of every other character.
pub proof fn lemma_sanitize_keeps_plain_characters(component: Seq<char>)
    ensures
        sanitized(component).len() == component.len(),
        forall|i: int|
            0 <= i < component.len() ==> (#[trigger] sanitized(component)[i]) == if plain_file_char(component[i]) {
                component[i]
            } else {
                '_'
            },
{
}

/// Log name law: two task names made of ASCII letters, digits, `-`, `_`, `.` and `+`
/// get the same log file name only when they are the same name, and such a name's log
/// file is the name followed by `.log`.
pub proof fn lemma_plain_task_names_get_their_own_logs(a: Seq<char>, b: Seq<char>)
    requires
        forall|i: int| 0 <= i < a.len() ==> plain_file_char(#[trigger] a[i]),
        forall|i: int| 0 <= i < b.len() ==> plain_file_char(#[trigger] b[i]),
    ensures
        sanitized(a) + ".log"@ == a + ".log"@,
        sanitized(a) + ".log"@ == sanitized(b) + ".log"@ ==> a == b,
{
    lemma_sanitize_keeps_plain_characters(a);
    lemma_sanitize_keeps_plain_characters(b);
    assert(sanitized(a) =~= a);
    assert(sanitized(b) =~= b);
    if a + ".log"@ == b + ".log"@ {
        assert((a + ".log"@).len() == (b + ".log"@).len());
        assert(a.len() == b.len());
        assert forall|i: int| 0 <= i < a.len() implies a[i] == b[i] by {
            assert((a + ".log"@)[i] == a[i]);
            assert((b + ".log"@)[i] == b[i]);
        }
        assert(a =~= b);
    }
}

/// Returns the persisted task log file name for a task.
pub fn task_log_file_name(task_name: &str) -> (s: String)
    ensures
        s@ == sanitized(task_name@) + ".log"@,
{
    let base = sanitize_file_component(task_name);
    join2(base.as_str(), ".log")
}

/// The proleptic Gregorian `(year, month, day)` of the day `days` days after 1970-01-01,
/// years counted astronomically (the year before 1 is 0).
pub open spec fn civil_from_days(days: int) -> (int, int, int) {
    let z = days + 719_468;
    let era = z / 146_097;
    let doe = z - era * 146_097;
    let yoe = (doe - doe / 1_460 + doe / 36_524 - doe / 146_096) / 365;
    let y = yoe + era * 400;
    let doy = doe - (365 * yoe + yoe / 4 - yoe / 100);
    let mp = (5 * doy + 2) / 153;
    let d = doy - (153 * mp + 2) / 5 + 1;
    let m = if mp < 10 { mp + 3 } else { mp - 9 };
    (if m <= 2 { y + 1 } else { y }, m, d)
}

/// The civil UTC date and time `(year, month, day, hour, minute, second)` of a time
/// given in nanoseconds since the Unix epoch, for the times from year -9999 to 9999;
/// `None` for any other time.
pub open spec fn utc_parts(unix_nanos: i128) -> Option<(i32, u8, u8, u8, u8, u8)> {
    if MIN_UNIX_NANOS <= unix_nanos <= MAX_UNIX_NANOS {
        let seconds = unix_nanos / 1_000_000_000;
        let of_day = seconds % 86_400;
        let date = civil_from_days(seconds / 86_400);
        Some(
            (
                date.0 as i32,
                date.1 as u8,
                date.2 as u8,
                (of_day / 3_600) as u8,
                (of_day % 3_600 / 60) as u8,
                (of_day % 60) as u8,
            ),
        )
    } else {
        None
    }
}

/// Earliest time (in Unix nanoseconds) that the `time` crate represents: -9999-01-01.
pub const MIN_UNIX_NANOS: i128 = -377_705_116_800_000_000_000;

/// Latest time (in Unix nanoseconds) that the `time` crate represents: the end of 9999.
pub const MAX_UNIX_NANOS: i128 = 253_402_300_799_999_999_999;

/// Calls `time::OffsetDateTime::from_unix_timestamp_nanos` and reads the UTC year, month,
/// day, hour, minute and second: the crate accepts exactly the times from year -9999 to
/// 9999 and places them in the proleptic Gregorian calendar.
#[verifier::external_body]
fn utc_date_time(unix_nanos: i128) -> (parts: Option<(i32, u8, u8, u8, u8, u8)>)
    ensures
        parts == utc_parts(unix_nanos),
{
    match time::OffsetDateTime::from_unix_timestamp_nanos(unix_nanos) {
        Ok(t) => Some((t.year(), u8::from(t.month()), t.day(), t.hour(), t.minute(), t.second())),
        Err(_) => None,
    }
}

/// `n` in decimal, left-padded with zeros to `width` digits after its sign.
pub open spec fn zero_padded(n: int, width: nat) -> Seq<char> {
    let digits = decimal((if n < 0 { -n } else { n }) as nat);
    let sign = if n < 0 {
        "-"@
    } else {
        ""@
    };
    let pad = if digits.len() + sign.len() < width {
        (width - digits.len() - sign.len()) as nat
    } else {
        0
    };
    sign + Seq::new(pad, |i: int| '0') + digits
}

fn zero_padded_exec(n: i64, width: usize) -> (s: Vec<char>)
    requires
        width <= 4,
    ensures
        s@ == zero_padded(n as int, width as nat),
{
    let magnitude: u128 = if n < 0 { (0i128 - n as i128) as u128 } else { n as u128 };
    let digits = crate::text::decimal_chars(magnitude);
    let mut s: Vec<char> = Vec::new();
    if n < 0 {
        s.push('-');
    }
    let sign_len: usize = if n < 0 { 1 } else { 0 };
    proof {
        reveal_strlit("-");
        reveal_strlit("");
    }
    let pad: usize = if sign_len <= width && digits.len() < width - sign_len {
        width - sign_len - digits.len()
    } else {
        0
    };
    crate::text::push_repeated(&mut s, '0', pad);
    crate::text::extend_chars(&mut s, &digits);
    proof {
        if n < 0 {
            assert(s@ =~= "-"@ + Seq::new(pad as nat, |i: int| '0') + digits@);
        } else {
            assert(s@ =~= ""@ + Seq::new(pad as nat, |i: int| '0') + digits@);
        }
    }
    s
}

/// `YYYY-MM-DDTHH:MM:SSZ` for civil date and time parts.
pub open spec fn iso8601_text(parts: (i32, u8, u8, u8, u8, u8)) -> Seq<char> {
    zero_padded(parts.0 as int, 4) + "-"@ + zero_padded(parts.1 as int, 2) + "-"@ + zero_padded(
        parts.2 as int,
        2,
    ) + "T"@ + zero_padded(parts.3 as int, 2) + ":"@ + zero_padded(parts.4 as int, 2) + ":"@
        + zero_padded(parts.5 as int, 2) + "Z"@
}

/// Formats a time in Unix nanoseconds as `YYYY-MM-DDTHH:MM:SSZ` in UTC.
pub fn format_iso8601(unix_nanos: i128) -> (s: String)
    requires
        MIN_UNIX_NANOS <= unix_nanos <= MAX_UNIX_NANOS,
    ensures
        utc_parts(unix_nanos) is Some,
        s@ == iso8601_text(utc_parts(unix_nanos)->Some_0),
{
    let parts = match utc_date_time(unix_nanos) {
        Some(p) => p,
        None => {
            assert(false);
            return String::new();
        },
    };
    let mut text: Vec<char> = Vec::new();
    let year = zero_padded_exec(parts.0 as i64, 4);
    crate::text::extend_chars(&mut text, &year);
    text.push('-');
    crate::text::extend_chars(&mut text, &zero_padded_exec(parts.1 as i64, 2));
    text.push('-');
    crate::text::extend_chars(&mut text, &zero_padded_exec(parts.2 as i64, 2));
    text.push('T');
    crate::text::extend_chars(&mut text, &zero_padded_exec(parts.3 as i64, 2));
    text.push(':');
    crate::text::extend_chars(&mut text, &zero_padded_exec(parts.4 as i64, 2));
    text.push(':');
    crate::text::extend_chars(&mut text, &zero_padded_exec(parts.5 as i64, 2));
    text.push('Z');
    proof {
        reveal_strlit("-");
        reveal_strlit("T");
        reveal_strlit(":");
        reveal_strlit("Z");
        assert(text@ =~= iso8601_text(parts));
    }
    string_from_chars(&text)
}

/// `s` with every `:` replaced by `-`.
pub open spec fn colons_to_dashes(s: Seq<char>) -> Seq<char> {
    Seq::new(s.len(), |i: int| if s[i] == ':' { '-' } else { s[i] })
}

/// Formats a time as in `format_iso8601`, with `-` in place of `:` so it can name a file.
pub fn format_file_safe_iso8601(unix_nanos: i128) -> (s: String)
    requires
        MIN_UNIX_NANOS <= unix_nanos <= MAX_UNIX_NANOS,
    ensures
        utc_parts(unix_nanos) is Some,
        s@ == colons_to_dashes(iso8601_text(utc_parts(unix_nanos)->Some_0)),
{
    let text = format_iso8601(unix_nanos);
    let chars = chars_of(text.as_str());
    let mut out: Vec<char> = Vec::new();
    let mut i: usize = 0;
    while i < chars.len()
        invariant
            i <= chars@.len(),
            out@ == colons_to_dashes(chars@).take(i as int),
        decreases chars@.len() - i,
    {
        if chars[i] == ':' {
            out.push('-');
        } else {
            out.push(chars[i]);
        }
        assert(out@ =~= colons_to_dashes(chars@).take(i + 1));
        i = i + 1;
    }
    assert(colons_to_dashes(chars@).take(chars@.len() as int) =~= colons_to_dashes(chars@));
    string_from_chars(&out)
}

/// Joins names with a separator.
pub fn join_names(names: &Vec<String>, separator: &str) -> (s: String)
    ensures
        s@ == joined(strings_view(names@), separator@),
{
    let ghost sv = strings_view(names@);
    let mut s = String::new();
    let mut i: usize = 0;
    assert(s@ =~= joined(sv.take(0), separator@));
    while i < names.len()
        invariant
            i <= names@.len(),
            sv == strings_view(names@),
            s@ == joined(sv.take(i as int), separator@),
        decreases names@.len() - i,
    {
        assert(sv.take(i + 1).drop_last() =~= sv.take(i as int));
        if i > 0 {
            s.append(separator);
        }
        s.append(names[i].as_str());
        proof {
            if i == 0 {
                assert(sv.take(1) =~= seq![sv[0]]);
                assert(s@ =~= sv[0]);
            }
        }
        i = i + 1;
    }
    assert(sv.take(names@.len() as int) =~= sv);
    s
}

/// The name of the directory of a run that started at `unix_nanos`.
pub open spec fn run_directory_name(unix_nanos: i128, requested: Seq<Seq<char>>) -> Seq<char> {
    colons_to_dashes(iso8601_text(utc_parts(unix_nanos)->Some_0)) + "-"@ + sanitized(
        joined(requested, "+"@),
    )
}

/// The directory a run that started at `unix_nanos` writes to: the started time and the
/// requested task names, made file-safe, under the runs directory.
pub fn preview_run_directory_for_time(
    run_root_directory: &FilePath,
    requested_task_names: &Vec<String>,
    unix_nanos: i128,
) -> (d: FilePath)
    requires
        MIN_UNIX_NANOS <= unix_nanos <= MAX_UNIX_NANOS,
    ensures
        d@ == spec_normalize(
            spec_join(run_root_directory@, run_directory_name(unix_nanos, strings_view(requested_task_names@))),
        ),
{
    let stamp = format_file_safe_iso8601(unix_nanos);
    let joined = join_names(requested_task_names, "+");
    proof {
        reveal_strlit("+");
    }
    let name = join3(stamp.as_str(), "-", sanitize_file_component(joined.as_str()).as_str());
    run_root_directory.join(name.as_str()).normalize()
}

/// How many run directories are tried before giving up.
pub const RUN_DIRECTORY_RETRY_LIMIT: usize = 30;

/// One second in nanoseconds: the distance between two tried run directory times.
pub const RUN_DIRECTORY_RETRY_STEP_NANOS: i128 = 1_000_000_000;

/// What to do after trying to create a run directory.
#[derive(Debug)]
pub enum ReservationStep {
    /// The directory was created: use it.
    Reserved,
    /// Wait one second, then try the next candidate.
    Retry { next_attempt: usize },
    /// Every attempt collided: fail with this message.
    GiveUp { message: String },
}

/// Decides the next step of run directory reservation after attempt `attempt`
/// (counting from zero) did or did not create its directory.
pub fn reservation_step(attempt: usize, created: bool) -> (step: ReservationStep)
    requires
        attempt < RUN_DIRECTORY_RETRY_LIMIT,
    ensures
        created ==> step is Reserved,
        !created && attempt + 1 < RUN_DIRECTORY_RETRY_LIMIT ==> (step matches ReservationStep::Retry {
            next_attempt,
        } && next_attempt == attempt + 1),
        !created && attempt + 1 == RUN_DIRECTORY_RETRY_LIMIT ==> (step matches ReservationStep::GiveUp {
            message,
        } && message@ == "Unable to reserve a unique run directory after 30 attempts"@),
{
    if created {
        ReservationStep::Reserved
    } else if attempt + 1 < RUN_DIRECTORY_RETRY_LIMIT {
        ReservationStep::Retry { next_attempt: attempt + 1 }
    } else {
        ReservationStep::GiveUp {
            message: String::from_str("Unable to reserve a unique run directory after 30 attempts"),
        }
    }
}

/// The started time tried at attempt `attempt`: one second later per attempt.
pub open spec fn reservation_candidate(start_unix_nanos: int, attempt: int) -> int {
    start_unix_nanos + attempt * RUN_DIRECTORY_RETRY_STEP_NANOS
}

/// The time candidate of attempt `attempt`: one second later per attempt.
pub fn reservation_candidate_time(start_unix_nanos: i128, attempt: usize) -> (t: i128)
    requires
        attempt < RUN_DIRECTORY_RETRY_LIMIT,
        MIN_UNIX_NANOS <= start_unix_nanos <= MAX_UNIX_NANOS,
    ensures
        t == reservation_candidate(start_unix_nanos as int, attempt as int),
{
    start_unix_nanos + (attempt as i128) * RUN_DIRECTORY_RETRY_STEP_NANOS
}

/// Reservation law: the directory that the first attempt tries is the one previewed for
/// the run's start, and each later attempt tries the name of a time one second later.
pub proof fn lemma_first_reservation_is_the_preview(start_unix_nanos: i128, attempt: int, requested: Seq<Seq<char>>)
    requires
        0 <= attempt,
    ensures
        reservation_candidate(start_unix_nanos as int, 0) == start_unix_nanos,
        run_directory_name(reservation_candidate(start_unix_nanos as int, 0) as i128, requested) == run_directory_name(
            start_unix_nanos,
            requested,
        ),
        reservation_candidate(start_unix_nanos as int, attempt + 1) == reservation_candidate(
            start_unix_nanos as int,
            attempt,
        ) + 1_000_000_000,
{
    assert(reservation_candidate(start_unix_nanos as int, 0) as i128 == start_unix_nanos);
}

/// The wall-clock time of a monotonic `timestamp`, given the run's start on both clocks;
/// an earlier timestamp counts as the start, and the offset is capped at `u64::MAX`
/// nanoseconds.
pub fn absolute_time_nanos(run_started_unix_nanos: i128, run_started_at: u128, timestamp: u128) -> (t:
    i128)
    requires
        run_started_unix_nanos <= MAX_UNIX_NANOS,
    ensures
        t == run_started_unix_nanos + (if timestamp >= run_started_at {
            if timestamp - run_started_at > u64::MAX {
                u64::MAX as int
            } else {
                timestamp - run_started_at
            }
        } else {
            0
        }),
{
    let delta: u128 = if timestamp >= run_started_at { timestamp - run_started_at } else { 0 };
    let capped: u128 = if delta > u64::MAX as u128 { u64::MAX as u128 } else { delta };
    run_started_unix_nanos + capped as i128
}

/// One line of a task log file.
pub open spec fn log_line_text(time: Seq<char>, stream: OutputStream, line: Seq<char>) -> Seq<char> {
    "["@ + time + "] "@ + stream_name(stream) + ": "@ + line + "\n"@
}

/// Renders one task log line with its wall-clock time already formatted.
pub fn render_log_line(time: &str, stream: OutputStream, line: &str) -> (s: String)
    ensures
        s@ == log_line_text(time@, stream, line@),
{
    let mut s = join3("[", time, "] ");
    match stream {
        OutputStream::Stdout => s.append("stdout"),
        OutputStream::Stderr => s.append("stderr"),
    }
    s.append(": ");
    s.append(line);
    s.append("\n");
    s
}

} // verus!
