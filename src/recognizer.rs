use vstd::prelude::*;

use crate::event::{EventKind, RecognitionEvent};

verus! {

/// The recognizer's committed result for an utterance: one text, or ranked
/// alternatives, best first.
#[derive(Debug)]
pub enum Hypothesis {
    Single(String),
    Alternatives(Vec<String>),
}

/// What the recognizer reported for one normalized frame. `Running` carries
/// the in-progress partial hypothesis read after the frame.
#[derive(Debug)]
pub enum RecognizerResponse {
    Running(String),
    Finalized(Hypothesis),
    Failed,
}

/// Where a recognition session stands.
#[derive(Clone, Copy, Debug, PartialEq, Eq, Structural)]
pub enum SessionState {
    Idle,
    Listening,
    Terminated,
}

/// The first-ranked text of a hypothesis; none when no alternative was offered.
pub open spec fn first_ranked(h: Hypothesis) -> Option<Seq<char>> {
    match h {
        Hypothesis::Single(t) => Some(t@),
        Hypothesis::Alternatives(v) => if v@.len() > 0 {
            Some(v@[0]@)
        } else {
            None
        },
    }
}

/// The first-ranked text of a finalized result.
pub fn complete_text(h: &Hypothesis) -> (r: Option<String>)
    ensures
        r matches Some(t) ==> first_ranked(*h) == Some(t@),
        r is None ==> first_ranked(*h) is None,
{
    match h {
        Hypothesis::Single(t) => Some(t.clone()),
        Hypothesis::Alternatives(v) => {
            if v.len() > 0 {
                Some(v[0].clone())
            } else {
                None
            }
        },
    }
}

/// A session as a value: its state and the text of the last partial it emitted
/// in the current utterance (empty when none).
pub struct AdapterView {
    pub state: SessionState,
    pub last_partial: Seq<char>,
}

/// The kind and text of the event a response gives rise to, if any.
pub open spec fn emitted(s: AdapterView, resp: RecognizerResponse) -> Option<(EventKind, Seq<char>)> {
    if s.state == SessionState::Terminated {
        None
    } else {
        match resp {
            RecognizerResponse::Running(p) => if p@.len() > 0 && p@ != s.last_partial {
                Some((EventKind::Partial, p@))
            } else {
                None
            },
            RecognizerResponse::Finalized(h) => match first_ranked(h) {
                Some(t) => if t.len() > 0 {
                    Some((EventKind::Final, t))
                } else {
                    None
                },
                None => None,
            },
            RecognizerResponse::Failed => None,
        }
    }
}

/// The session after a response.
pub open spec fn after(s: AdapterView, resp: RecognizerResponse) -> AdapterView {
    if s.state == SessionState::Terminated {
        s
    } else {
        match resp {
            RecognizerResponse::Running(p) => AdapterView {
                state: SessionState::Listening,
                last_partial: if p@.len() > 0 {
                    p@
                } else {
                    s.last_partial
                },
            },
            RecognizerResponse::Finalized(_) => AdapterView {
                state: SessionState::Listening,
                last_partial: Seq::empty(),
            },
            RecognizerResponse::Failed => AdapterView {
                state: SessionState::Listening,
                last_partial: s.last_partial,
            },
        }
    }
}

/// Turns the recognizer's per-frame reports into partial, final and error
/// events for one capture session.
#[derive(Debug)]
pub struct RecognizerAdapter {
    state: SessionState,
    last_partial: String,
}

impl View for RecognizerAdapter {
    type V = AdapterView;

    closed spec fn view(&self) -> AdapterView {
        AdapterView { state: self.state, last_partial: self.last_partial@ }
    }
}

impl RecognizerAdapter {
    pub fn new() -> (r: Self)
        ensures
            r@.state == SessionState::Idle,
            r@.last_partial.len() == 0,
    {
        RecognizerAdapter { state: SessionState::Idle, last_partial: String::new() }
    }

    pub fn state(&self) -> (r: SessionState)
        ensures
            r == self@.state,
    {
        self.state
    }

    /// Interprets one response, stamping an emitted event with `ts_ms`.
    pub fn on_response(&mut self, resp: RecognizerResponse, ts_ms: u64) -> (r: Option<
        RecognitionEvent,
    >)
        ensures
            final(self)@ == after(old(self)@, resp),
            match emitted(old(self)@, resp) {
                Some((kind, text)) => r matches Some(e) && e.ts_ms == ts_ms && e.kind == kind
                    && e.text@ == text,
                None => r is None,
            },
    {
        if self.state == SessionState::Terminated {
            return None;
        }
        self.state = SessionState::Listening;
        match resp {
            RecognizerResponse::Running(partial) => {
                if partial.as_str().is_empty() {
                    None
                } else if partial == self.last_partial {
                    None
                } else {
                    self.last_partial = partial.clone();
                    Some(RecognitionEvent::new(ts_ms, EventKind::Partial, partial))
                }
            },
            RecognizerResponse::Finalized(h) => {
                self.last_partial = String::new();
                match complete_text(&h) {
                    Some(text) => {
                        if text.as_str().is_empty() {
                            None
                        } else {
                            Some(RecognitionEvent::new(ts_ms, EventKind::Final, text))
                        }
                    },
                    None => None,
                }
            },
            RecognizerResponse::Failed => None,
        }
    }

    /// Ends the session on a fatal fault (the recognizer lock was poisoned, or
    /// the capture device failed): the first call emits one error event with
    /// `reason`, and every later response or fault emits nothing.
    pub fn fail(&mut self, reason: String, ts_ms: u64) -> (r: Option<RecognitionEvent>)
        ensures
            final(self)@.state == SessionState::Terminated,
            final(self)@.last_partial == old(self)@.last_partial,
            old(self)@.state == SessionState::Terminated ==> r is None,
            old(self)@.state != SessionState::Terminated ==> (r matches Some(e) && e.ts_ms
                == ts_ms && e.kind == EventKind::Error && e.text@ == reason@),
    {
        if self.state == SessionState::Terminated {
            None
        } else {
            self.state = SessionState::Terminated;
            Some(RecognitionEvent::new(ts_ms, EventKind::Error, reason))
        }
    }
}

/// A decode failure emits no event and does not end the session: the session
/// is listening afterwards, and whatever response follows is interpreted
/// exactly as it would have been had the failure not come.
pub proof fn lemma_decode_failure_skipped(s: AdapterView, next: RecognizerResponse)
    requires
        s.state != SessionState::Terminated,
    ensures
        emitted(s, RecognizerResponse::Failed) is None,
        after(s, RecognizerResponse::Failed).state == SessionState::Listening,
        emitted(after(s, RecognizerResponse::Failed), next) == emitted(s, next),
        after(after(s, RecognizerResponse::Failed), next) == after(
            AdapterView { state: SessionState::Listening, last_partial: s.last_partial },
            next,
        ),
{
}

} // verus!
