use vstd::prelude::*;
use crate::headers::Headers;
use crate::outgoing::RequestError;

verus! {

/// The name of an event delivered to the script side.
#[derive(PartialEq, Eq, Structural, Clone, Copy, Debug)]
pub enum EventName {
    Head,
    Data,
    End,
    Error,
}

/// Where one handle's request stands.
#[derive(PartialEq, Eq, Structural, Clone, Copy, Debug)]
pub enum Phase {
    /// Sent, no response yet.
    Waiting,
    /// The head was delivered; body chunks follow.
    Streaming,
    /// The body ended; terminal.
    Ended,
    /// The request failed; terminal.
    Failed,
    /// The deadline passed first; terminal.
    TimedOut,
}

/// Status line and headers of a response.
pub struct ResponseHead {
    pub status: u16,
    pub status_text: String,
    pub version: String,
    pub headers: Headers,
}

/// What the transport or the deadline reports for a handle.
pub enum Progress {
    /// The response head arrived.
    Responded(ResponseHead),
    /// One chunk of the body arrived.
    Chunk(Vec<u8>),
    /// The body is complete.
    Finished,
    /// The request failed.
    Failed(RequestError),
    /// The deadline passed.
    Deadline,
}

/// One event to deliver to the script side, with its payload.
pub enum Dispatch {
    Head(ResponseHead),
    Data(Vec<u8>),
    End,
    Error(String),
}

pub open spec fn is_terminal(p: Phase) -> bool {
    p == Phase::Ended || p == Phase::Failed || p == Phase::TimedOut
}

/// Next phase, and the event to deliver, when `p` is reported in `phase`.
/// Nothing follows a terminal phase; reports that make no sense in the
/// current phase are ignored.
pub open spec fn step_spec(phase: Phase, p: Progress) -> (Phase, Option<EventName>) {
    if is_terminal(phase) {
        (phase, None)
    } else {
        match p {
            Progress::Responded(_) => if phase == Phase::Waiting {
                (Phase::Streaming, Some(EventName::Head))
            } else {
                (phase, None)
            },
            Progress::Chunk(_) => if phase == Phase::Streaming {
                (phase, Some(EventName::Data))
            } else {
                (phase, None)
            },
            Progress::Finished => if phase == Phase::Streaming {
                (Phase::Ended, Some(EventName::End))
            } else {
                (phase, None)
            },
            Progress::Failed(_) => (Phase::Failed, Some(EventName::Error)),
            Progress::Deadline => (Phase::TimedOut, Some(EventName::Error)),
        }
    }
}

pub open spec fn opt_seq(e: Option<EventName>) -> Seq<EventName> {
    match e {
        Some(n) => seq![n],
        None => Seq::empty(),
    }
}

/// The events delivered, in order, when `ps` is reported from `phase` on.
pub open spec fn emitted(phase: Phase, ps: Seq<Progress>) -> Seq<EventName>
    decreases ps.len(),
{
    if ps.len() == 0 {
        Seq::empty()
    } else {
        let (next, e) = step_spec(phase, ps[0]);
        opt_seq(e) + emitted(next, ps.drop_first())
    }
}

pub open spec fn error_detail(e: RequestError) -> Seq<char> {
    match e {
        RequestError::UrlParse(u) => "Failed to parse url: "@ + u@,
        RequestError::Transport(d) => d@,
        RequestError::BodyRead(d) => "Failed to read response body: "@ + d@,
        RequestError::TimedOut => "Timed out"@,
    }
}

pub open spec fn error_message(url: Seq<char>, detail: Seq<char>) -> Seq<char> {
    "Failed to request `"@ + url + "`: "@ + detail
}

impl RequestError {
    /// Human-readable description of the error.
    pub fn detail(&self) -> (r: String)
        ensures
            r@ == error_detail(*self),
    {
        match self {
            RequestError::UrlParse(u) => {
                let mut s = String::from_str("Failed to parse url: ");
                s.append(u.as_str());
                s
            },
            RequestError::Transport(d) => d.clone(),
            RequestError::BodyRead(d) => {
                let mut s = String::from_str("Failed to read response body: ");
                s.append(d.as_str());
                s
            },
            RequestError::TimedOut => String::from_str("Timed out"),
        }
    }
}

/// The text of the one error event of a request to `url`.
pub fn failure_message(url: &String, detail: &String) -> (r: String)
    ensures
        r@ == error_message(url@, detail@),
{
    let mut s = String::from_str("Failed to request `");
    s.append(url.as_str());
    s.append("`: ");
    s.append(detail.as_str());
    s
}

impl Dispatch {
    pub open spec fn name(self) -> EventName {
        match self {
            Dispatch::Head(_) => EventName::Head,
            Dispatch::Data(_) => EventName::Data,
            Dispatch::End => EventName::End,
            Dispatch::Error(_) => EventName::Error,
        }
    }

    /// The name under which the event reaches the script side.
    pub fn event_name(&self) -> (r: &'static str)
        ensures
            r@ == event_name_text(self.name()),
    {
        match self {
            Dispatch::Head(_) => "head",
            Dispatch::Data(_) => "data",
            Dispatch::End => "end",
            Dispatch::Error(_) => "error",
        }
    }
}

pub open spec fn event_name_text(n: EventName) -> Seq<char> {
    match n {
        EventName::Head => "head"@,
        EventName::Data => "data"@,
        EventName::End => "end"@,
        EventName::Error => "error"@,
    }
}

/// The event stream of one handle.
pub struct HandleState {
    pub url: String,
    pub phase: Phase,
}

impl HandleState {
    /// A handle whose request to `url` was just started.
    pub fn new(url: String) -> (r: HandleState)
        ensures
            r.url == url,
            r.phase == Phase::Waiting,
    {
        HandleState { url, phase: Phase::Waiting }
    }

    /// Takes in one report and returns the event to deliver, if any.
    pub fn step(&mut self, p: Progress) -> (r: Option<Dispatch>)
        ensures
            final(self).url == old(self).url,
            final(self).phase == step_spec(old(self).phase, p).0,
            match r {
                Some(d) => {
                    &&& step_spec(old(self).phase, p).1 == Some(d.name())
                    &&& (p matches Progress::Responded(h) ==> d == Dispatch::Head(h))
                    &&& (p matches Progress::Chunk(c) ==> d == Dispatch::Data(c))
                    &&& (p matches Progress::Failed(e) ==> (d matches Dispatch::Error(m)
                        && m@ == error_message(old(self).url@, error_detail(e))))
                    &&& (p is Deadline ==> (d matches Dispatch::Error(m) && m@ == error_message(
                        old(self).url@,
                        "Timed out"@,
                    )))
                },
                None => step_spec(old(self).phase, p).1 is None,
            },
    {
        if self.phase == Phase::Ended || self.phase == Phase::Failed || self.phase
            == Phase::TimedOut {
            return None;
        }
        match p {
            Progress::Responded(h) => {
                if self.phase == Phase::Waiting {
                    self.phase = Phase::Streaming;
                    Some(Dispatch::Head(h))
                } else {
                    None
                }
            },
            Progress::Chunk(c) => {
                if self.phase == Phase::Streaming {
                    Some(Dispatch::Data(c))
                } else {
                    None
                }
            },
            Progress::Finished => {
                if self.phase == Phase::Streaming {
                    self.phase = Phase::Ended;
                    Some(Dispatch::End)
                } else {
                    None
                }
            },
            Progress::Failed(e) => {
                self.phase = Phase::Failed;
                let detail = e.detail();
                Some(Dispatch::Error(failure_message(&self.url, &detail)))
            },
            Progress::Deadline => {
                self.phase = Phase::TimedOut;
                let detail = String::from_str("Timed out");
                Some(Dispatch::Error(failure_message(&self.url, &detail)))
            },
        }
    }
}

pub open spec fn all_data(s: Seq<EventName>) -> bool {
    forall|i: int| 0 <= i < s.len() ==> s[i] == EventName::Data
}

/// Data events, then at most one terminal event, which comes last.
pub open spec fn body_shape(s: Seq<EventName>) -> bool {
    all_data(s) || (s.len() > 0 && all_data(s.drop_last()) && (s.last() == EventName::End
        || s.last() == EventName::Error))
}

proof fn lemma_terminal_silent(phase: Phase, ps: Seq<Progress>)
    requires
        is_terminal(phase),
    ensures
        emitted(phase, ps) == Seq::<EventName>::empty(),
    decreases ps.len(),
{
    if ps.len() > 0 {
        lemma_terminal_silent(phase, ps.drop_first());
        assert(emitted(phase, ps) =~= emitted(phase, ps.drop_first()));
    }
}

proof fn lemma_streaming_shape(ps: Seq<Progress>)
    ensures
        body_shape(emitted(Phase::Streaming, ps)),
    decreases ps.len(),
{
    if ps.len() > 0 {
        let rest = ps.drop_first();
        let (next, e) = step_spec(Phase::Streaming, ps[0]);
        let tail = emitted(next, rest);
        let s = emitted(Phase::Streaming, ps);
        assert(s == opt_seq(e) + tail);
        if is_terminal(next) {
            lemma_terminal_silent(next, rest);
            assert(s =~= opt_seq(e));
        } else {
            lemma_streaming_shape(rest);
            if e is Some {
                assert(s =~= seq![EventName::Data] + tail);
                if !all_data(tail) {
                    assert(s.drop_last() =~= seq![EventName::Data] + tail.drop_last());
                }
            } else {
                assert(s =~= tail);
            }
        }
    }
}

/// Whatever the transport reports, a handle's events are an error alone,
/// or a head followed by data events and at most one terminal event, which
/// comes last.
pub proof fn lemma_stream_shape(ps: Seq<Progress>)
    ensures
        ({
            let s = emitted(Phase::Waiting, ps);
            s.len() == 0 || s == seq![EventName::Error] || (s[0] == EventName::Head && body_shape(
                s.drop_first(),
            ))
        }),
    decreases ps.len(),
{
    if ps.len() > 0 {
        let rest = ps.drop_first();
        let (next, e) = step_spec(Phase::Waiting, ps[0]);
        let s = emitted(Phase::Waiting, ps);
        assert(s == opt_seq(e) + emitted(next, rest));
        if is_terminal(next) {
            lemma_terminal_silent(next, rest);
            assert(s =~= opt_seq(e));
        } else if next == Phase::Streaming {
            lemma_streaming_shape(rest);
            assert(s.drop_first() =~= emitted(next, rest));
        } else {
            lemma_stream_shape(rest);
            assert(s =~= emitted(next, rest));
        }
    }
}

/// A handle that ends well delivers exactly one head, then only data
/// events, then exactly one end, and nothing after it; it never delivers
/// an error.
pub proof fn lemma_completed_stream(ps: Seq<Progress>)
    requires
        emitted(Phase::Waiting, ps).contains(EventName::End),
    ensures
        ({
            let s = emitted(Phase::Waiting, ps);
            &&& s.len() >= 2
            &&& s[0] == EventName::Head
            &&& s.last() == EventName::End
            &&& forall|i: int| 0 < i < s.len() - 1 ==> s[i] == EventName::Data
        }),
{
    lemma_stream_shape(ps);
    let s = emitted(Phase::Waiting, ps);
    let j = choose|j: int| 0 <= j < s.len() && s[j] == EventName::End;
    let b = s.drop_first();
    if all_data(b) {
        assert(b[j - 1] == s[j]);
    } else {
        if b.last() == EventName::Error {
            if j > 0 && j < s.len() - 1 {
                assert(b.drop_last()[j - 1] == s[j]);
            }
        }
        assert forall|i: int| 0 < i < s.len() - 1 implies s[i] == EventName::Data by {
            assert(b.drop_last()[i - 1] == s[i]);
        }
    }
}

/// A deadline that fires before the stream ended delivers one error event,
/// and nothing is delivered after it, whatever is reported afterwards. In
/// particular a deadline that fires before any response leaves the handle
/// with the error event alone.
pub proof fn lemma_deadline_ends_stream(phase: Phase, ps: Seq<Progress>)
    requires
        !is_terminal(phase),
        ps.len() > 0,
        ps[0] is Deadline,
    ensures
        emitted(phase, ps) == seq![EventName::Error],
{
    lemma_terminal_silent(Phase::TimedOut, ps.drop_first());
    assert(emitted(phase, ps) =~= seq![EventName::Error]);
}

} // verus!
