use vstd::prelude::*;

verus! {

/// What a recognition event reports.
#[derive(Clone, Copy, Debug, PartialEq, Eq, Structural)]
pub enum EventKind {
    Partial,
    Final,
    Error,
}

/// The lowercase token that names an event kind on the wire.
pub open spec fn kind_name(k: EventKind) -> Seq<char> {
    match k {
        EventKind::Partial => seq!['p', 'a', 'r', 't', 'i', 'a', 'l'],
        EventKind::Final => seq!['f', 'i', 'n', 'a', 'l'],
        EventKind::Error => seq!['e', 'r', 'r', 'o', 'r'],
    }
}

/// ASCII text as bytes, one per character.
pub open spec fn ascii(s: Seq<char>) -> Seq<u8> {
    s.map_values(|c: char| c as u8)
}

/// The same token as ASCII bytes.
pub open spec fn kind_token(k: EventKind) -> Seq<u8> {
    ascii(kind_name(k))
}

impl EventKind {
    pub fn as_str(self) -> (r: &'static str)
        ensures
            r@ == kind_name(self),
    {
        match self {
            EventKind::Partial => {
                proof {
                    reveal_strlit("partial");
                }
                "partial"
            },
            EventKind::Final => {
                proof {
                    reveal_strlit("final");
                }
                "final"
            },
            EventKind::Error => {
                proof {
                    reveal_strlit("error");
                }
                "error"
            },
        }
    }
}

/// A recognition event as a value: time stamp, kind and text.
pub struct EventView {
    pub ts_ms: u64,
    pub kind: EventKind,
    pub text: Seq<char>,
}

/// One partial, final or error transcript, stamped in milliseconds.
#[derive(Debug)]
pub struct RecognitionEvent {
    pub ts_ms: u64,
    pub kind: EventKind,
    pub text: String,
}

impl View for RecognitionEvent {
    type V = EventView;

    open spec fn view(&self) -> EventView {
        EventView { ts_ms: self.ts_ms, kind: self.kind, text: self.text@ }
    }
}

impl Clone for RecognitionEvent {
    fn clone(&self) -> (r: Self)
        ensures
            r == *self,
    {
        RecognitionEvent { ts_ms: self.ts_ms, kind: self.kind, text: self.text.clone() }
    }
}

impl RecognitionEvent {
    pub fn new(ts_ms: u64, kind: EventKind, text: String) -> (r: Self)
        ensures
            r.ts_ms == ts_ms,
            r.kind == kind,
            r.text == text,
    {
        RecognitionEvent { ts_ms, kind, text }
    }
}

} // verus!
