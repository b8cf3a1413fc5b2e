//! Pieces of the terminal UI that decide what is shown: task state markers, the spinner
//! and scroll arithmetic.

use crate::text::str_equals;
use vstd::prelude::*;
use vstd::string::*;

verus! {

/// The spinner frame shown at step `i`.
pub open spec fn spinner_frame(i: nat) -> Seq<char> {
    if i == 0 {
        "⠋ "@
    } else if i == 1 {
        "⠙ "@
    } else if i == 2 {
        "⠹ "@
    } else if i == 3 {
        "⠸ "@
    } else if i == 4 {
        "⠼ "@
    } else if i == 5 {
        "⠴ "@
    } else if i == 6 {
        "⠦ "@
    } else if i == 7 {
        "⠧ "@
    } else if i == 8 {
        "⠇ "@
    } else {
        "⠏ "@
    }
}

/// The frames of the running-task spinner, in order.
pub fn spinner_frames() -> (frames: Vec<&'static str>)
    ensures
        frames@.len() == 10,
        forall|i: int| 0 <= i < 10 ==> (#[trigger] frames@[i])@ == spinner_frame(i as nat),
{
    let frames = vec!["⠋ ", "⠙ ", "⠹ ", "⠸ ", "⠼ ", "⠴ ", "⠦ ", "⠧ ", "⠇ ", "⠏ "];
    assert(frames@.len() == 10);
    frames
}

/// The marker of a task state; a running task shows the spinner frame of `spinner_frame`.
pub open spec fn task_state_emoji(status: Seq<char>, spinner_step: nat) -> Seq<char> {
    if status == "pending"@ {
        "⚪"@
    } else if status == "running"@ {
        spinner_frame(spinner_step % 10)
    } else if status == "completed"@ {
        "✅"@
    } else if status == "failed"@ {
        "❌"@
    } else if status == "skipped"@ {
        "⏭ "@
    } else {
        "⚪"@
    }
}

/// Returns the marker for a task state.
pub fn render_task_state_emoji(status: &str, spinner_frame: usize) -> (emoji: &'static str)
    ensures
        emoji@ == task_state_emoji(status@, spinner_frame as nat),
{
    if str_equals(status, "pending") {
        "⚪"
    } else if str_equals(status, "running") {
        let frames = spinner_frames();
        let index = spinner_frame % frames.len();
        frames[index]
    } else if str_equals(status, "completed") {
        "✅"
    } else if str_equals(status, "failed") {
        "❌"
    } else if str_equals(status, "skipped") {
        "⏭ "
    } else {
        "⚪"
    }
}

/// `current + delta`, kept within `0 ..= max`.
pub fn adjust_scroll(current: u16, delta: i32, max: u16) -> (next: u16)
    ensures
        next == (if current + delta < 0 {
            0
        } else if current + delta > max {
            max as int
        } else {
            current + delta
        }),
{
    let next: i64 = current as i64 + delta as i64;
    if next < 0 {
        0
    } else if next > max as i64 {
        max
    } else {
        next as u16
    }
}

} // verus!
