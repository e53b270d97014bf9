//! What reading a chunk of a stream leaves behind.

use crate::tool_buffer::BufferView;
use crate::types::{events, ChatEvent, ErrorView, EventView, ProviderError};
use vstd::prelude::*;

verus! {

/// The state of a stream while a chunk is read: the events so far, the buffer, and
/// the error that ended the reading, if one did.
pub struct Step {
    pub out: Seq<EventView>,
    pub buf: BufferView,
    pub err: Option<ErrorView>,
}

impl Step {
    /// With one more event.
    pub open spec fn push(self, e: EventView) -> Step {
        Step { out: self.out.push(e), ..self }
    }

    /// Ended by an error.
    pub open spec fn fail(self, e: ErrorView) -> Step {
        Step { err: Some(e), ..self }
    }

    /// As the outcome of a parser.
    pub open spec fn outcome(self) -> (Result<Seq<EventView>, ErrorView>, BufferView) {
        (
            match self.err {
                Some(e) => Err(e),
                None => Ok(self.out),
            },
            self.buf,
        )
    }
}

/// The state that a helper leaves behind.
pub open spec fn step(out: Seq<ChatEvent>, buf: BufferView, r: Result<(), ProviderError>) -> Step {
    Step {
        out: events(out),
        buf,
        err: match r {
            Ok(_) => None,
            Err(e) => Some(e@),
        },
    }
}

} // verus!
