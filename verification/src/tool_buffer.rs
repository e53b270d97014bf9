//! Tool calls that are still arriving, piece by piece, within one stream.

use std::collections::HashMap;

use crate::json::{parse_json, serde_parse, Json, JsonView};
use crate::text::{decimal, decimal_of, trim, trimmed};
use crate::types::{ErrorView, ProviderError, StopReason};
use vstd::prelude::*;
use vstd::string::*;

verus! {

broadcast use vstd::std_specs::hash::group_hash_axioms;

/// One call whose arguments are still arriving.
pub struct PendingCall {
    pub id: String,
    pub name: String,
    pub args: String,
}

/// What is known of a call.
pub struct CallView {
    pub id: Seq<char>,
    pub name: Seq<char>,
    pub args: Seq<char>,
}

impl View for PendingCall {
    type V = CallView;

    open spec fn view(&self) -> CallView {
        CallView { id: self.id@, name: self.name@, args: self.args@ }
    }
}

/// What a buffer holds: the calls by index, and what the stream has shown.
pub struct BufferView {
    pub calls: Map<usize, CallView>,
    pub started: bool,
    pub finished: bool,
    pub pending_stop: Option<StopReason>,
}

/// The outcome of taking a call out of a buffer: id, name and arguments.
pub type Finalized = Result<(Seq<char>, Seq<char>, JsonView), ErrorView>;

impl BufferView {
    /// A buffer at the start of a stream.
    pub open spec fn empty() -> BufferView {
        BufferView { calls: Map::empty(), started: false, finished: false, pending_stop: None }
    }

    /// After a call has begun.
    pub open spec fn on_start(self, index: usize, id: Seq<char>, name: Seq<char>) -> BufferView {
        BufferView {
            calls: self.calls.insert(index, CallView { id, name, args: seq![] }),
            ..self
        }
    }

    /// After a piece of arguments has come. One for a call that has not begun is
    /// dropped.
    pub open spec fn on_delta(self, index: usize, part: Seq<char>) -> BufferView {
        if self.calls.dom().contains(index) {
            let c = self.calls[index];
            BufferView {
                calls: self.calls.insert(index, CallView { args: c.args + part, ..c }),
                ..self
            }
        } else {
            self
        }
    }

    /// The call with its arguments read. Empty arguments are the empty object.
    pub open spec fn finalized(self, index: usize) -> Finalized {
        if !self.calls.dom().contains(index) {
            Err(ErrorView::Parse("tool call index "@ + decimal(index as nat) + " not started"@))
        } else {
            let c = self.calls[index];
            if trimmed(c.args).len() == 0 {
                Ok((c.id, c.name, JsonView::Obj(Map::empty())))
            } else {
                match serde_parse(c.args) {
                    Ok(v) => Ok((c.id, c.name, v)),
                    Err(e) => Err(
                        ErrorView::Parse(
                            "tool call `"@ + c.name + "` has malformed arguments: "@ + e,
                        ),
                    ),
                }
            }
        }
    }

    /// After a call has been taken out.
    pub open spec fn without(self, index: usize) -> BufferView {
        BufferView { calls: self.calls.remove(index), ..self }
    }
}

/// What the outcome of taking a call out says.
pub open spec fn finalized_view(r: Result<(String, String, Json), ProviderError>) -> Finalized {
    match r {
        Ok((id, name, args)) => Ok((id@, name@, args@)),
        Err(e) => Err(e@),
    }
}

/// Tool calls of one stream, by index.
pub struct ToolCallBuffer {
    calls: HashMap<usize, PendingCall>,
    started: bool,
    finished: bool,
    pending_stop: Option<StopReason>,
}

/// What the calls of a buffer hold.
spec fn calls_view(m: Map<usize, PendingCall>) -> Map<usize, CallView> {
    m.map_values(|c: PendingCall| c@)
}

impl View for ToolCallBuffer {
    type V = BufferView;

    closed spec fn view(&self) -> BufferView {
        BufferView {
            calls: calls_view(self.calls@),
            started: self.started,
            finished: self.finished,
            pending_stop: self.pending_stop,
        }
    }
}

impl ToolCallBuffer {
    /// A buffer at the start of a stream.
    pub fn new() -> (r: ToolCallBuffer)
        ensures
            r@ == BufferView::empty(),
    {
        let r = ToolCallBuffer {
            calls: HashMap::new(),
            started: false,
            finished: false,
            pending_stop: None,
        };
        assert(calls_view(r.calls@) =~= Map::empty());
        r
    }

    /// A call begins.
    pub fn on_start(&mut self, index: usize, id: String, name: String)
        ensures
            final(self)@ == old(self)@.on_start(index, id@, name@),
    {
        let call = PendingCall { id, name, args: String::new() };
        self.calls.insert(index, call);
        assert(calls_view(self.calls@) =~= calls_view(old(self).calls@).insert(index, call@));
    }

    /// A piece of arguments comes.
    pub fn on_delta(&mut self, index: usize, part: &str)
        ensures
            final(self)@ == old(self)@.on_delta(index, part@),
    {
        match self.calls.remove(&index) {
            Some(call) => {
                let mut args: String = call.args;
                args.append(part);
                let next = PendingCall { id: call.id, name: call.name, args };
                self.calls.insert(index, next);
                assert(calls_view(self.calls@) =~= calls_view(old(self).calls@).insert(
                    index,
                    next@,
                ));
            },
            None => {
                assert(self.calls@ =~= old(self).calls@);
            },
        }
    }

    /// Whether a call with this index has begun and has not been taken out.
    pub fn holds(&self, index: usize) -> (r: bool)
        ensures
            r == self@.calls.dom().contains(index),
    {
        self.calls.contains_key(&index)
    }

    /// Takes a call out and reads its arguments.
    pub fn finalize(&mut self, index: usize) -> (r: Result<(String, String, Json), ProviderError>)
        ensures
            finalized_view(r) == old(self)@.finalized(index),
            final(self)@ == old(self)@.without(index),
    {
        match self.calls.remove(&index) {
            None => {
                assert(calls_view(self.calls@) =~= calls_view(old(self).calls@).remove(index));
                let mut msg: String = "tool call index ".to_owned();
                msg.append(decimal_of(index as u64).as_str());
                msg.append(" not started");
                Err(ProviderError::Parse(msg))
            },
            Some(call) => {
                assert(calls_view(self.calls@) =~= calls_view(old(self).calls@).remove(index));
                if trim(call.args.as_str()).as_str().is_empty() {
                    return Ok((call.id, call.name, Json::object()));
                }
                match parse_json(call.args.as_str()) {
                    Ok(v) => Ok((call.id, call.name, v)),
                    Err(e) => {
                        let mut msg: String = "tool call `".to_owned();
                        msg.append(call.name.as_str());
                        msg.append("` has malformed arguments: ");
                        msg.append(e.as_str());
                        Err(ProviderError::Parse(msg))
                    },
                }
            },
        }
    }

    /// Whether the stream opens with this chunk: true once.
    pub fn take_started(&mut self) -> (r: bool)
        ensures
            r == !old(self)@.started,
            final(self)@ == (BufferView { started: true, ..old(self)@ }),
    {
        let first: bool = !self.started;
        self.started = true;
        first
    }

    /// Keeps the reason of a stop until the usage comes.
    pub fn record_pending_stop(&mut self, stop: StopReason)
        ensures
            final(self)@ == (BufferView { pending_stop: Some(stop), ..old(self)@ }),
    {
        self.pending_stop = Some(stop);
    }

    /// Hands out the reason that was kept.
    pub fn take_pending_stop(&mut self) -> (r: Option<StopReason>)
        ensures
            r == old(self)@.pending_stop,
            final(self)@ == (BufferView { pending_stop: None, ..old(self)@ }),
    {
        let stop: Option<StopReason> = self.pending_stop;
        self.pending_stop = None;
        stop
    }

    /// Notes that the stream has been ended.
    pub fn mark_finished(&mut self)
        ensures
            final(self)@ == (BufferView { finished: true, ..old(self)@ }),
    {
        self.finished = true;
    }

    /// Whether the stream has been ended.
    pub fn finished_emitted(&self) -> (r: bool)
        ensures
            r == self@.finished,
    {
        self.finished
    }
}

/// A buffer after pieces of the arguments of one call have come.
pub open spec fn with_parts(buf: BufferView, index: usize, parts: Seq<Seq<char>>) -> BufferView
    decreases parts.len(),
{
    if parts.len() == 0 {
        buf
    } else {
        with_parts(buf, index, parts.drop_last()).on_delta(index, parts.last())
    }
}

/// Pieces, one behind the other.
pub open spec fn put_together(parts: Seq<Seq<char>>) -> Seq<char>
    decreases parts.len(),
{
    if parts.len() == 0 {
        seq![]
    } else {
        put_together(parts.drop_last()) + parts.last()
    }
}

/// However its arguments are cut to pieces, a call comes out with the arguments that
/// the pieces make together, and the other calls stay as they are.
pub proof fn law_arguments_are_put_together(
    buf: BufferView,
    index: usize,
    id: Seq<char>,
    name: Seq<char>,
    parts: Seq<Seq<char>>,
)
    ensures
        with_parts(buf.on_start(index, id, name), index, parts).calls == buf.calls.insert(
            index,
            CallView { id, name, args: put_together(parts) },
        ),
    decreases parts.len(),
{
    let begun = buf.on_start(index, id, name);
    if parts.len() > 0 {
        law_arguments_are_put_together(buf, index, id, name, parts.drop_last());
        let before = with_parts(begun, index, parts.drop_last());
        assert(before.calls.dom().contains(index));
        assert(with_parts(begun, index, parts).calls =~= buf.calls.insert(
            index,
            CallView { id, name, args: put_together(parts) },
        ));
    }
}

} // verus!
