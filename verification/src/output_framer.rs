//! Buffers raw process output chunks and renders them as timestamped task output lines.

use crate::run_outcome::{LogLine, OutputStream};
use crate::text::{decimal, i64_to_string, join3, signed_decimal, u128_to_string};
use vstd::prelude::*;
use vstd::string::*;
use vstd::utf8::{decode_utf8, valid_utf8};

verus! {

/// The text that `String::from_utf8_lossy` decodes from `bytes`.
pub uninterp spec fn lossy_text(bytes: Seq<u8>) -> Seq<char>;

/// Calls `String::from_utf8_lossy`, which decodes UTF-8 and replaces each invalid sequence
/// with U+FFFD; bytes that are valid UTF-8 decode to the text they encode.
#[verifier::external_body]
fn utf8_lossy(bytes: &[u8]) -> (text: String)
    ensures
        text@ == lossy_text(bytes@),
        valid_utf8(bytes@) ==> text@ == decode_utf8(bytes@),
{
    String::from_utf8_lossy(bytes).into_owned()
}

/// The text of a line's bytes: what they encode when they are valid UTF-8, else the
/// lossy decoding.
pub open spec fn decoded_text(bytes: Seq<u8>) -> Seq<char> {
    if valid_utf8(bytes) {
        decode_utf8(bytes)
    } else {
        lossy_text(bytes)
    }
}

/// An event reported while a task process runs.
#[derive(Debug)]
pub enum ProcessEvent {
    /// The process started.
    Started,
    /// The process wrote bytes to a stream.
    Output { timestamp_nanos: u128, stream: OutputStream, bytes: Vec<u8> },
    /// A stream of the process was closed.
    StreamClosed { timestamp_nanos: u128, stream: OutputStream },
    /// The process exited, with its exit code when it has one.
    Exited { timestamp_nanos: u128, exit_code: Option<i32> },
}

/// Buffers raw process chunks and renders timestamp-prefixed task output lines.
#[derive(Debug)]
pub struct TaskOutputFramer {
    output: String,
    stdout_buffer: Vec<u8>,
    stderr_buffer: Vec<u8>,
    log_lines: Vec<LogLine>,
}

/// A log line as its time, stream and text.
pub open spec fn log_entry(line: LogLine) -> (u128, OutputStream, Seq<char>) {
    (line.timestamp_nanos, line.stream, line.text@)
}

/// The framer's state: rendered output, the lines framed so far, and the bytes not yet
/// forming a whole line.
pub struct FramerView {
    pub output: Seq<char>,
    pub lines: Seq<(u128, OutputStream, Seq<char>)>,
    pub stdout: Seq<u8>,
    pub stderr: Seq<u8>,
}

impl View for TaskOutputFramer {
    type V = FramerView;

    closed spec fn view(&self) -> FramerView {
        FramerView {
            output: self.output@,
            lines: self.log_lines@.map_values(|l: LogLine| log_entry(l)),
            stdout: self.stdout_buffer@,
            stderr: self.stderr_buffer@,
        }
    }
}

/// The name of a stream as it appears in output lines.
pub open spec fn stream_name(stream: OutputStream) -> Seq<char> {
    match stream {
        OutputStream::Stdout => "stdout"@,
        OutputStream::Stderr => "stderr"@,
    }
}

/// One rendered output line.
pub open spec fn line_text(stream: OutputStream, timestamp: nat, line: Seq<u8>) -> Seq<char> {
    "["@ + decimal(timestamp) + "ns] "@ + stream_name(stream) + ": "@ + decoded_text(line) + "\n"@
}

/// Position of the first line feed in `buf` at or after `from`.
pub open spec fn first_newline(buf: Seq<u8>, from: int) -> Option<int>
    decreases buf.len() - from,
{
    if from < 0 || from >= buf.len() {
        None
    } else if buf[from] == 10u8 {
        Some(from)
    } else {
        first_newline(buf, from + 1)
    }
}

/// A line without a trailing carriage return.
pub open spec fn strip_cr(line: Seq<u8>) -> Seq<u8> {
    if line.len() > 0 && line.last() == 13u8 {
        line.drop_last()
    } else {
        line
    }
}

/// Renders every complete line of `buf` after `out`, and adds each to `lines`; gives the
/// output, the lines and the rest.
pub open spec fn drain(
    out: Seq<char>,
    lines: Seq<(u128, OutputStream, Seq<char>)>,
    buf: Seq<u8>,
    stream: OutputStream,
    timestamp: u128,
) -> (Seq<char>, Seq<(u128, OutputStream, Seq<char>)>, Seq<u8>)
    decreases buf.len(),
{
    match first_newline(buf, 0) {
        None => (out, lines, buf),
        Some(i) => if 0 <= i < buf.len() {
            drain(
                out + line_text(stream, timestamp as nat, strip_cr(buf.take(i))),
                lines.push((timestamp, stream, decoded_text(strip_cr(buf.take(i))))),
                buf.skip(i + 1),
                stream,
                timestamp,
            )
        } else {
            (out, lines, buf)
        },
    }
}

/// The text of an exit event.
pub open spec fn exit_text(timestamp: nat, exit_code: Option<i32>) -> Seq<char> {
    "["@ + decimal(timestamp) + "ns] process exited with code "@ + match exit_code {
        Some(code) => signed_decimal(code as int),
        None => "unknown"@,
    } + "\n"@
}

/// The heading for a task, after a line break when output precedes it.
pub open spec fn heading_text(after_output: bool, name: Seq<char>) -> Seq<char> {
    (if after_output {
        "\n"@
    } else {
        ""@
    }) + "Running task `"@ + name + "`\n"@
}

/// The framer state after an event.
pub open spec fn after_event(s: FramerView, event: ProcessEvent) -> FramerView {
    match event {
        ProcessEvent::Started => s,
        ProcessEvent::Output { timestamp_nanos, stream, bytes } => match stream {
            OutputStream::Stdout => {
                let (out, lines, rest) = drain(s.output, s.lines, s.stdout + bytes@, stream, timestamp_nanos);
                FramerView { output: out, lines, stdout: rest, ..s }
            },
            OutputStream::Stderr => {
                let (out, lines, rest) = drain(s.output, s.lines, s.stderr + bytes@, stream, timestamp_nanos);
                FramerView { output: out, lines, stderr: rest, ..s }
            },
        },
        ProcessEvent::StreamClosed { timestamp_nanos, stream } => match stream {
            OutputStream::Stdout => if s.stdout.len() == 0 {
                s
            } else {
                FramerView {
                    output: s.output + line_text(stream, timestamp_nanos as nat, s.stdout),
                    lines: s.lines.push((timestamp_nanos, stream, decoded_text(s.stdout))),
                    stdout: Seq::empty(),
                    ..s
                }
            },
            OutputStream::Stderr => if s.stderr.len() == 0 {
                s
            } else {
                FramerView {
                    output: s.output + line_text(stream, timestamp_nanos as nat, s.stderr),
                    lines: s.lines.push((timestamp_nanos, stream, decoded_text(s.stderr))),
                    stderr: Seq::empty(),
                    ..s
                }
            },
        },
        ProcessEvent::Exited { timestamp_nanos, exit_code } => FramerView {
            output: s.output + exit_text(timestamp_nanos as nat, exit_code),
            ..s
        },
    }
}

fn stream_name_exec(stream: OutputStream) -> (name: &'static str)
    ensures
        name@ == stream_name(stream),
{
    match stream {
        OutputStream::Stdout => "stdout",
        OutputStream::Stderr => "stderr",
    }
}

fn byte_range(v: &Vec<u8>, from: usize, to: usize) -> (r: Vec<u8>)
    requires
        from <= to <= v@.len(),
    ensures
        r@ == v@.subrange(from as int, to as int),
{
    let mut r: Vec<u8> = Vec::new();
    let mut k = from;
    while k < to
        invariant
            from <= k <= to <= v@.len(),
            r@ == v@.subrange(from as int, k as int),
        decreases to - k,
    {
        r.push(v[k]);
        k = k + 1;
        assert(r@ =~= v@.subrange(from as int, k as int));
    }
    r
}

fn first_newline_exec(buf: &Vec<u8>) -> (r: Option<usize>)
    ensures
        match r {
            Some(i) => first_newline(buf@, 0) == Some(i as int) && i < buf@.len(),
            None => first_newline(buf@, 0) is None,
        },
{
    let mut k: usize = 0;
    while k < buf.len()
        invariant
            k <= buf@.len(),
            first_newline(buf@, 0) == first_newline(buf@, k as int),
        decreases buf@.len() - k,
    {
        if buf[k] == 10u8 {
            return Some(k);
        }
        k = k + 1;
    }
    None
}

impl TaskOutputFramer {
    /// Creates a new empty output framer.
    pub fn new() -> (f: TaskOutputFramer)
        ensures
            f@.output.len() == 0,
            f@.lines.len() == 0,
            f@.stdout.len() == 0,
            f@.stderr.len() == 0,
    {
        let f = TaskOutputFramer {
            output: String::new(),
            stdout_buffer: Vec::new(),
            stderr_buffer: Vec::new(),
            log_lines: Vec::new(),
        };
        assert(f@.lines =~= Seq::<(u128, OutputStream, Seq<char>)>::empty());
        f
    }

    /// Appends a task heading; a line break separates it from earlier output.
    pub fn push_task_heading(&mut self, task_name: &str)
        ensures
            final(self)@ == (FramerView {
                output: old(self)@.output + heading_text(old(self)@.output.len() > 0, task_name@),
                ..old(self)@
            }),
    {
        let existing = crate::text::chars_of(self.output.as_str());
        let mut text = String::new();
        if existing.len() > 0 {
            text.append("\n");
        } else {
            proof {
                reveal_strlit("");
            }
        }
        text.append("Running task `");
        text.append(task_name);
        text.append("`\n");
        self.output.append(text.as_str());
    }

    /// The rendered output.
    pub fn into_output(self) -> (s: String)
        ensures
            s@ == self@.output,
    {
        self.output
    }

    /// The number of lines framed so far.
    pub fn log_lines_len(&self) -> (n: usize)
        ensures
            n == self@.lines.len(),
    {
        self.log_lines.len()
    }

    /// The lines framed so far, with their times and streams.
    pub fn log_lines(&self) -> (lines: &Vec<LogLine>)
        ensures
            lines@.map_values(|l: LogLine| log_entry(l)) == self@.lines,
    {
        &self.log_lines
    }

    /// The rendered output and the framed lines.
    pub fn into_parts(self) -> (parts: (String, Vec<LogLine>))
        ensures
            parts.0@ == self@.output,
            parts.1@.map_values(|l: LogLine| log_entry(l)) == self@.lines,
    {
        (self.output, self.log_lines)
    }

    fn render_line(&mut self, stream: OutputStream, timestamp_nanos: u128, line: &Vec<u8>)
        ensures
            final(self)@ == (FramerView {
                output: old(self)@.output + line_text(stream, timestamp_nanos as nat, line@),
                lines: old(self)@.lines.push((timestamp_nanos, stream, decoded_text(line@))),
                ..old(self)@
            }),
    {
        let decoded = utf8_lossy(line.as_slice());
        let mut text = join3("[", u128_to_string(timestamp_nanos).as_str(), "ns] ");
        text.append(stream_name_exec(stream));
        text.append(": ");
        text.append(decoded.as_str());
        text.append("\n");
        self.output.append(text.as_str());
        let ghost before = self.log_lines@.map_values(|l: LogLine| log_entry(l));
        self.log_lines.push(LogLine { timestamp_nanos, stream, text: decoded });
        assert(self.log_lines@.map_values(|l: LogLine| log_entry(l)) =~= before.push(
            (timestamp_nanos, stream, decoded_text(line@)),
        ));
    }

    fn drain_lines(&mut self, stream: OutputStream, timestamp_nanos: u128)
        ensures
            ({
                let (out, lines, rest) = drain(
                    old(self)@.output,
                    old(self)@.lines,
                    match stream {
                        OutputStream::Stdout => old(self)@.stdout,
                        OutputStream::Stderr => old(self)@.stderr,
                    },
                    stream,
                    timestamp_nanos,
                );
                final(self)@ == match stream {
                    OutputStream::Stdout => FramerView { output: out, lines, stdout: rest, ..old(self)@ },
                    OutputStream::Stderr => FramerView { output: out, lines, stderr: rest, ..old(self)@ },
                }
            }),
    {
        let ghost start = self@;
        let ghost target = drain(
            start.output,
            start.lines,
            match stream {
                OutputStream::Stdout => start.stdout,
                OutputStream::Stderr => start.stderr,
            },
            stream,
            timestamp_nanos,
        );
        loop
            invariant
                start == old(self)@,
                target == drain(
                    start.output,
                    start.lines,
                    match stream {
                        OutputStream::Stdout => start.stdout,
                        OutputStream::Stderr => start.stderr,
                    },
                    stream,
                    timestamp_nanos,
                ),
                drain(
                    self@.output,
                    self@.lines,
                    match stream {
                        OutputStream::Stdout => self@.stdout,
                        OutputStream::Stderr => self@.stderr,
                    },
                    stream,
                    timestamp_nanos,
                ) == target,
                match stream {
                    OutputStream::Stdout => self@.stderr == start.stderr,
                    OutputStream::Stderr => self@.stdout == start.stdout,
                },
            decreases
                (match stream {
                    OutputStream::Stdout => self@.stdout,
                    OutputStream::Stderr => self@.stderr,
                }).len(),
        {
            let buffer = match stream {
                OutputStream::Stdout => &self.stdout_buffer,
                OutputStream::Stderr => &self.stderr_buffer,
            };
            let ghost buf = buffer@;
            let n = buffer.len();
            let index = match first_newline_exec(buffer) {
                None => {
                    return;
                },
                Some(index) => index,
            };
            let mut line = byte_range(buffer, 0, index);
            let rest = byte_range(buffer, index + 1, n);
            if line.len() > 0 && line[line.len() - 1] == 13u8 {
                line.pop();
            }
            proof {
                assert(buf.take(index as int) =~= buf.subrange(0, index as int));
                assert(buf.skip(index + 1) =~= buf.subrange(index + 1, buf.len() as int));
                let taken = buf.take(index as int);
                if taken.len() > 0 && taken.last() == 13u8 {
                    assert(line@ =~= taken.drop_last());
                }
            }
            match stream {
                OutputStream::Stdout => {
                    self.stdout_buffer = rest;
                },
                OutputStream::Stderr => {
                    self.stderr_buffer = rest;
                },
            }
            self.render_line(stream, timestamp_nanos, &line);
        }
    }

    fn flush_partial_line(&mut self, stream: OutputStream, timestamp_nanos: u128)
        ensures
            final(self)@ == after_event(old(self)@, ProcessEvent::StreamClosed { timestamp_nanos, stream }),
    {
        let remaining = match stream {
            OutputStream::Stdout => {
                if self.stdout_buffer.len() == 0 {
                    return;
                }
                let mut taken: Vec<u8> = Vec::new();
                std::mem::swap(&mut taken, &mut self.stdout_buffer);
                taken
            },
            OutputStream::Stderr => {
                if self.stderr_buffer.len() == 0 {
                    return;
                }
                let mut taken: Vec<u8> = Vec::new();
                std::mem::swap(&mut taken, &mut self.stderr_buffer);
                taken
            },
        };
        self.render_line(stream, timestamp_nanos, &remaining);
    }

    fn handle_exited_event(&mut self, timestamp_nanos: u128, exit_code: Option<i32>)
        ensures
            final(self)@ == after_event(old(self)@, ProcessEvent::Exited { timestamp_nanos, exit_code }),
    {
        let code = match exit_code {
            Some(code) => i64_to_string(code as i64),
            None => String::from_str("unknown"),
        };
        let mut text = join3("[", u128_to_string(timestamp_nanos).as_str(), "ns] process exited with code ");
        text.append(code.as_str());
        text.append("\n");
        self.output.append(text.as_str());
    }

    /// Takes in one process event: output bytes are buffered until whole lines can be
    /// rendered, a closed stream flushes its partial line, an exit renders its code.
    pub fn handle_event(&mut self, event: ProcessEvent)
        ensures
            final(self)@ == after_event(old(self)@, event),
    {
        match event {
            ProcessEvent::Started => {},
            ProcessEvent::Output { timestamp_nanos, stream, bytes } => {
                let ghost bytes_view = bytes@;
                match stream {
                    OutputStream::Stdout => {
                        let mut extra = bytes;
                        self.stdout_buffer.append(&mut extra);
                    },
                    OutputStream::Stderr => {
                        let mut extra = bytes;
                        self.stderr_buffer.append(&mut extra);
                    },
                }
                self.drain_lines(stream, timestamp_nanos);
            },
            ProcessEvent::StreamClosed { timestamp_nanos, stream } => {
                self.flush_partial_line(stream, timestamp_nanos);
            },
            ProcessEvent::Exited { timestamp_nanos, exit_code } => {
                self.handle_exited_event(timestamp_nanos, exit_code);
            },
        }
    }
}

impl Default for TaskOutputFramer {
    /// An empty output framer, as `new` makes it.
    fn default() -> (f: TaskOutputFramer)
        ensures
            f@.output.len() == 0,
            f@.lines.len() == 0,
            f@.stdout.len() == 0,
            f@.stderr.len() == 0,
    {
        TaskOutputFramer::new()
    }
}

} // verus!
