//! The line protocol spoken with a sandbox: the token that resumes it, the
//! sentinels that it answers with, and the transcript gathered while waiting
//! for one.

use vstd::prelude::*;
use vstd::string::*;
use crate::error::ServiceError;
use crate::control::{
    control_class_spec,
    lemma_parse_rendering,
    parse_control,
    render_spec,
};
use crate::text::{
    chars_of,
    concat_spec,
    contains,
    contains_spec,
    lemma_concat_push,
    occurs_at,
    same_text,
    strip_terminator,
};

verus! {

/// How a sentinel's pattern is held against a line.
#[derive(Clone, Copy, Debug, PartialEq, Eq, Structural)]
pub enum MatchMode {
    /// The line, without its terminator, is the pattern.
    Exact,
    /// The pattern occurs somewhere in the line.
    Substring,
    /// The line is a control message, and the pattern is its class name.
    Control,
}

/// A control line that ends a wait: a pattern and the way to match it.
#[derive(Debug)]
pub struct Sentinel {
    pub pattern: String,
    pub mode: MatchMode,
}

/// One attempt to read a line from the sandbox.
#[derive(Debug)]
pub enum ReadEvent {
    /// A line arrived, terminator included.
    Line(String),
    /// The stream has ended.
    Closed,
    /// No line came within the time allowed.
    TimedOut,
    /// The read reported an error.
    Failed,
}

/// What the reader does after an event.
#[derive(Clone, Copy, Debug, PartialEq, Eq, Structural)]
pub enum ReadStep {
    /// The line was no sentinel: read the next one.
    Continue,
    /// The line was the sentinel: the transcript is complete.
    Complete,
    /// No line came: give up with this failure.
    Abort(ServiceError),
}

/// The text gathered from the sandbox while waiting for a sentinel.
#[derive(Debug)]
pub struct Transcript {
    text: String,
}

/// Whether `line` is the control line that `pattern` and `mode` describe.
pub open spec fn sentinel_matches(pattern: Seq<char>, mode: MatchMode, line: Seq<char>) -> bool {
    match mode {
        MatchMode::Exact => strip_terminator(line) == pattern,
        MatchMode::Substring => contains_spec(line, pattern),
        MatchMode::Control => control_class_spec(line) == Some(pattern),
    }
}

/// The token that tells a paused sandbox to go on, with its terminator.
pub open spec fn resume_token_spec() -> Seq<char> {
    "CODE UPLOADED\n"@
}

/// The rendering of the control message by which the sandbox says that it
/// waits for code.
pub open spec fn wait_for_code_spec() -> Seq<char> {
    "{ \"base_class_name\" : \"Action\", \"class_name\" : \"WaitForCode\", \"properties\" : {} }"@
}

/// The text that an event adds to the transcript.
pub open spec fn event_text(event: ReadEvent) -> Seq<char> {
    match event {
        ReadEvent::Line(line) => line@,
        _ => Seq::empty(),
    }
}

/// What the reader does after `event` while waiting for the sentinel.
pub open spec fn step_spec(event: ReadEvent, pattern: Seq<char>, mode: MatchMode) -> ReadStep {
    match event {
        ReadEvent::Line(line) => if sentinel_matches(pattern, mode, line@) {
            ReadStep::Complete
        } else {
            ReadStep::Continue
        },
        ReadEvent::TimedOut => ReadStep::Abort(ServiceError::ReadTimeout),
        _ => ReadStep::Abort(ServiceError::ReadFailed),
    }
}

/// The first `n` events are ordinary lines, and either they are all there is
/// or the next event brought no line and gives `error`.
pub open spec fn halts_with(
    stream: Seq<ReadEvent>,
    pattern: Seq<char>,
    mode: MatchMode,
    n: int,
    error: ServiceError,
) -> bool {
    &&& 0 <= n <= stream.len()
    &&& quiet_prefix(stream, pattern, mode, n)
    &&& if n == stream.len() {
        error == ServiceError::ReadFailed
    } else {
        step_spec(stream[n], pattern, mode) == ReadStep::Abort(error)
    }
}

/// The texts of the events of a stream, event by event.
pub open spec fn stream_texts(stream: Seq<ReadEvent>) -> Seq<Seq<char>> {
    Seq::new(stream.len(), |i: int| event_text(stream[i]))
}

/// The first `n` events are all lines that are no sentinel.
pub open spec fn quiet_prefix(
    stream: Seq<ReadEvent>,
    pattern: Seq<char>,
    mode: MatchMode,
    n: int,
) -> bool {
    forall|j: int| 0 <= j < n ==> step_spec(#[trigger] stream[j], pattern, mode) == ReadStep::Continue
}

/// Judges an attempt to signal: it failed unless the token was both written
/// and flushed.
pub fn signal_outcome(wrote: bool, flushed: bool) -> (outcome: Result<(), ServiceError>)
    ensures
        outcome == if wrote && flushed {
            Ok::<(), ServiceError>(())
        } else {
            Err::<(), ServiceError>(ServiceError::SignalFailed)
        },
{
    if wrote && flushed {
        Ok(())
    } else {
        Err(ServiceError::SignalFailed)
    }
}

/// The bytes to write to a paused sandbox once new code is staged.
pub fn resume_token() -> (token: String)
    ensures
        token@ == resume_token_spec(),
{
    String::from_str("CODE UPLOADED\n")
}

impl Sentinel {
    /// Whether `line` is this control line.
    pub open spec fn matches_spec(&self, line: Seq<char>) -> bool {
        sentinel_matches(self.pattern@, self.mode, line)
    }

    /// The sentinel that is exactly `pattern`, terminator aside.
    pub fn exact(pattern: String) -> (sentinel: Sentinel)
        ensures
            sentinel.pattern@ == pattern@,
            sentinel.mode == MatchMode::Exact,
    {
        Sentinel { pattern, mode: MatchMode::Exact }
    }

    /// The sentinel that is any line holding `pattern`.
    pub fn substring(pattern: String) -> (sentinel: Sentinel)
        ensures
            sentinel.pattern@ == pattern@,
            sentinel.mode == MatchMode::Substring,
    {
        Sentinel { pattern, mode: MatchMode::Substring }
    }

    /// The sentinel that is any control message of the class `class_name`,
    /// whatever its base class and its properties.
    pub fn control(class_name: String) -> (sentinel: Sentinel)
        ensures
            sentinel.pattern@ == class_name@,
            sentinel.mode == MatchMode::Control,
    {
        Sentinel { pattern: class_name, mode: MatchMode::Control }
    }

    /// The sentinel by which a sandbox says that it waits for code: any line
    /// that holds the rendering of that control message.
    pub fn wait_for_code() -> (sentinel: Sentinel)
        ensures
            sentinel.pattern@ == wait_for_code_spec(),
            sentinel.mode == MatchMode::Substring,
    {
        Sentinel {
            pattern: String::from_str(
                "{ \"base_class_name\" : \"Action\", \"class_name\" : \"WaitForCode\", \"properties\" : {} }",
            ),
            mode: MatchMode::Substring,
        }
    }

    /// Whether `line` is this control line.
    pub fn matches(&self, line: &str) -> (found: bool)
        ensures
            found == self.matches_spec(line@),
    {
        match self.mode {
            MatchMode::Substring => contains(line, self.pattern.as_str()),
            MatchMode::Control => match parse_control(line) {
                Some(message) => same_text(message.class_name.as_str(), self.pattern.as_str()),
                None => false,
            },
            MatchMode::Exact => {
                let l = chars_of(line);
                let p = chars_of(self.pattern.as_str());
                let n: usize = if l.len() > 0 && l[l.len() - 1] == '\n' {
                    l.len() - 1
                } else {
                    l.len()
                };
                assert(strip_terminator(line@) =~= l@.take(n as int));
                if n != p.len() {
                    return false;
                }
                let mut k: usize = 0;
                while k < n
                    invariant
                        k <= n,
                        n == p.len(),
                        n <= l.len(),
                        p@ == self.pattern@,
                        self.mode == MatchMode::Exact,
                        strip_terminator(line@) == l@.take(n as int),
                        forall|j: int| 0 <= j < k ==> l@[j] == p@[j],
                    decreases n - k,
                {
                    if l[k] != p[k] {
                        assert(l@.take(n as int)[k as int] != p@[k as int]);
                        return false;
                    }
                    k += 1;
                }
                assert(l@.take(n as int) =~= p@);
                true
            },
        }
    }
}

/// The message by which a sandbox says that it waits for code is the control
/// message of base class `Action` and class `WaitForCode` without properties.
pub proof fn lemma_wait_for_code_rendering()
    ensures
        wait_for_code_spec() == render_spec("Action"@, "WaitForCode"@, "{}"@),
{
    reveal_strlit(
        "{ \"base_class_name\" : \"Action\", \"class_name\" : \"WaitForCode\", \"properties\" : {} }",
    );
    reveal_strlit("{ \"base_class_name\" : \"");
    reveal_strlit("\", \"class_name\" : \"");
    reveal_strlit("\", \"properties\" : ");
    reveal_strlit(" }");
    reveal_strlit("Action");
    reveal_strlit("WaitForCode");
    reveal_strlit("{}");
    assert(wait_for_code_spec() =~= render_spec("Action"@, "WaitForCode"@, "{}"@));
}

/// On the line that is that message and its terminator, the three ways of
/// waiting for code agree: the line holds the rendering, it is the
/// rendering, and it is a control message of the class `WaitForCode`.
pub proof fn lemma_wait_for_code_agrees()
    ensures
        sentinel_matches(
            wait_for_code_spec(),
            MatchMode::Substring,
            wait_for_code_spec().push('\n'),
        ),
        sentinel_matches(wait_for_code_spec(), MatchMode::Exact, wait_for_code_spec().push('\n')),
        sentinel_matches("WaitForCode"@, MatchMode::Control, wait_for_code_spec().push('\n')),
{
    let message = wait_for_code_spec();
    let line = message.push('\n');
    assert(strip_terminator(line) =~= message);
    assert(line.subrange(0, message.len() as int) =~= message);
    assert(occurs_at(line, message, 0));
    lemma_wait_for_code_rendering();
    reveal_strlit("Action");
    reveal_strlit("WaitForCode");
    lemma_parse_rendering("Action"@, "WaitForCode"@, "{}"@);
}

impl View for Transcript {
    type V = Seq<char>;

    closed spec fn view(&self) -> Seq<char> {
        self.text@
    }
}

impl Transcript {
    /// The empty transcript.
    pub fn new() -> (transcript: Transcript)
        ensures
            transcript@ == Seq::<char>::empty(),
    {
        Transcript { text: String::new() }
    }

    /// Takes one read event: a line is appended, terminator and all, and the
    /// result says whether to read on, to stop with the transcript complete,
    /// or to give up.
    pub fn absorb(&mut self, event: &ReadEvent, sentinel: &Sentinel) -> (step: ReadStep)
        ensures
            final(self)@ == old(self)@ + event_text(*event),
            step == step_spec(*event, sentinel.pattern@, sentinel.mode),
    {
        match event {
            ReadEvent::Line(line) => {
                self.text.append(line.as_str());
                if sentinel.matches(line.as_str()) {
                    ReadStep::Complete
                } else {
                    ReadStep::Continue
                }
            },
            ReadEvent::TimedOut => {
                assert(self@ + Seq::<char>::empty() =~= self@);
                ReadStep::Abort(ServiceError::ReadTimeout)
            },
            _ => {
                assert(self@ + Seq::<char>::empty() =~= self@);
                ReadStep::Abort(ServiceError::ReadFailed)
            },
        }
    }

    /// The gathered text.
    pub fn into_text(self) -> (text: String)
        ensures
            text@ == self@,
    {
        self.text
    }
}

/// Reads events from the front of `stream` until the sentinel arrives.
///
/// Succeeds exactly when the first event that is not an ordinary line is the
/// sentinel line; the result is then every line up to and including it, one
/// after the other, and the number of events taken. What follows in the
/// stream is left alone. A closed or failing stream before the sentinel, or
/// a stream that ends without it, is a read failure; a read that ran out of
/// time before the sentinel is a timeout.
pub fn read_until_sentinel(stream: &Vec<ReadEvent>, sentinel: &Sentinel) -> (outcome: Result<
    (String, usize),
    ServiceError,
>)
    ensures
        match outcome {
            Ok((text, taken)) => {
                &&& 1 <= taken <= stream.len()
                &&& quiet_prefix(stream@, sentinel.pattern@, sentinel.mode, taken - 1)
                &&& step_spec(stream[taken - 1], sentinel.pattern@, sentinel.mode)
                    == ReadStep::Complete
                &&& text@ == concat_spec(stream_texts(stream@.take(taken as int)))
            },
            Err(error) => exists|n: int|
                halts_with(stream@, sentinel.pattern@, sentinel.mode, n, error),
        },
{
    let mut transcript = Transcript::new();
    let mut i: usize = 0;
    proof {
        assert(stream_texts(stream@.take(0)) =~= Seq::<Seq<char>>::empty());
    }
    while i < stream.len()
        invariant
            i <= stream.len(),
            quiet_prefix(stream@, sentinel.pattern@, sentinel.mode, i as int),
            transcript@ == concat_spec(stream_texts(stream@.take(i as int))),
        decreases stream.len() - i,
    {
        let step = transcript.absorb(&stream[i], sentinel);
        proof {
            assert(stream_texts(stream@.take(i + 1)) =~= stream_texts(stream@.take(i as int)).push(
                event_text(stream[i as int]),
            ));
            lemma_concat_push(stream_texts(stream@.take(i as int)), event_text(stream[i as int]));
        }
        match step {
            ReadStep::Continue => {},
            ReadStep::Complete => {
                return Ok((transcript.into_text(), i + 1));
            },
            ReadStep::Abort(error) => {
                assert(halts_with(stream@, sentinel.pattern@, sentinel.mode, i as int, error));
                return Err(error);
            },
        }
        i += 1;
    }
    assert(halts_with(
        stream@,
        sentinel.pattern@,
        sentinel.mode,
        stream.len() as int,
        ServiceError::ReadFailed,
    ));
    Err(ServiceError::ReadFailed)
}

} // verus!
