//! The calls that wait for an answer of one child process, and the process that is
//! in use.

use std::collections::HashSet;

use crate::backends::claude_sdk::wire::{
    read_reply_line, reply_read, reply_result, DaemonChatReply, ReplyView,
};
use crate::http_base::{quote, quoted};
use crate::types::{ErrorView, ProviderError};
use vstd::prelude::*;
use vstd::std_specs::iter::IteratorSpec;
use vstd::string::*;

verus! {

broadcast use vstd::std_specs::hash::group_hash_axioms;

/// The calls that wait for an answer, by their ids.
#[derive(Debug)]
pub struct PendingCalls {
    next_id: u64,
    waiting: HashSet<u64>,
}

/// The id of the next call, and the ids of those that wait.
pub struct PendingView {
    pub next_id: u64,
    pub waiting: Set<u64>,
}

impl View for PendingCalls {
    type V = PendingView;

    closed spec fn view(&self) -> PendingView {
        PendingView { next_id: self.next_id, waiting: self.waiting@ }
    }
}

impl PendingView {
    /// Whether the next call gets an id that no waiting call has.
    pub open spec fn ids_are_fresh(self) -> bool {
        forall|id: u64| #[trigger] self.waiting.contains(id) ==> id < self.next_id
    }

    /// With one call more.
    pub open spec fn registered(self) -> PendingView {
        PendingView {
            next_id: if self.next_id == u64::MAX {
                0
            } else {
                (self.next_id + 1) as u64
            },
            waiting: self.waiting.insert(self.next_id),
        }
    }

    /// Without a call.
    pub open spec fn forgotten(self, id: u64) -> PendingView {
        PendingView { waiting: self.waiting.remove(id), ..self }
    }
}

/// What to do with a line from the child process.
#[derive(Debug)]
pub enum Dispatch {
    /// Hand this to the call.
    Deliver { id: u64, result: Result<DaemonChatReply, ProviderError> },
    /// No call waits for it.
    Unclaimed { id: u64 },
    /// It cannot be read.
    Malformed,
}

/// What that says.
pub enum DispatchView {
    Deliver { id: u64, result: Result<ReplyView, ErrorView> },
    Unclaimed { id: u64 },
    Malformed,
}

impl View for Dispatch {
    type V = DispatchView;

    open spec fn view(&self) -> DispatchView {
        match self {
            Dispatch::Deliver { id, result } => DispatchView::Deliver {
                id: *id,
                result: reply_result(*result),
            },
            Dispatch::Unclaimed { id } => DispatchView::Unclaimed { id: *id },
            Dispatch::Malformed => DispatchView::Malformed,
        }
    }
}

/// What to do with a line while these calls wait.
pub open spec fn dispatched(p: PendingView, line: Seq<char>) -> DispatchView {
    match reply_read(line) {
        None => DispatchView::Malformed,
        Some((id, result)) => if p.waiting.contains(id) {
            DispatchView::Deliver { id, result }
        } else {
            DispatchView::Unclaimed { id }
        },
    }
}

/// Which calls wait after a line.
pub open spec fn after_line(p: PendingView, line: Seq<char>) -> PendingView {
    match reply_read(line) {
        None => p,
        Some((id, result)) => p.forgotten(id),
    }
}

/// The error for calls that the child process has left without an answer.
pub open spec fn child_gone() -> ErrorView {
    ErrorView::Internal("claude_sdk: child exited before responding"@)
}

impl PendingCalls {
    /// No call waits.
    pub fn new() -> (r: PendingCalls)
        ensures
            r@ == (PendingView { next_id: 0, waiting: Set::empty() }),
            r@.ids_are_fresh(),
    {
        PendingCalls { next_id: 0, waiting: HashSet::new() }
    }

    /// Lets one call more wait, and gives its id.
    pub fn register(&mut self) -> (id: u64)
        ensures
            id == old(self)@.next_id,
            final(self)@ == old(self)@.registered(),
    {
        let id: u64 = self.next_id;
        self.waiting.insert(id);
        self.next_id = if id == u64::MAX {
            0
        } else {
            id + 1
        };
        id
    }

    /// Whether a call waits.
    pub fn is_waiting(&self, id: u64) -> (r: bool)
        ensures
            r == self@.waiting.contains(id),
    {
        self.waiting.contains(&id)
    }

    /// Lets a call wait no longer.
    pub fn forget(&mut self, id: u64)
        ensures
            final(self)@ == old(self)@.forgotten(id),
    {
        self.waiting.remove(&id);
    }

    /// Takes note of a line from the child process. Gives what to do with it.
    pub fn on_line(&mut self, line: &str) -> (r: Dispatch)
        ensures
            r@ == dispatched(old(self)@, line@),
            final(self)@ == after_line(old(self)@, line@),
    {
        match read_reply_line(line) {
            None => Dispatch::Malformed,
            Some((id, result)) => {
                if self.waiting.remove(&id) {
                    Dispatch::Deliver { id, result }
                } else {
                    Dispatch::Unclaimed { id }
                }
            },
        }
    }

    /// The child process is gone: gives the calls that waited, each of which has to
    /// be told so. None waits any longer.
    pub fn on_exit(&mut self) -> (r: Vec<u64>)
        ensures
            r@.to_set() == old(self)@.waiting,
            r@.no_duplicates(),
            final(self)@ == (PendingView { waiting: Set::empty(), ..old(self)@ }),
    {
        let mut out: Vec<u64> = Vec::new();
        let ghost all = self.waiting.iter().remaining().unref();
        for id in it: self.waiting.iter()
            invariant
                it.seq().unref() == all,
                out@ == all.take(it.index() as int),
        {
            let ghost k = it.index() as int;
            assert(*id == all[k]);
            out.push(*id);
            assert(out@ =~= all.take(k + 1));
        }
        assert(all.take(all.len() as int) =~= all);
        self.waiting.clear();
        out
    }
}

/// Why there is no child process to talk to.
#[derive(Debug)]
pub enum StartFailure {
    /// The script could not be run.
    Spawn { executable: String, script: String, error: String },
    /// There is no pipe to write to.
    NoStdin,
    /// There is no pipe to read from.
    NoStdout,
}

/// The error where there is no child process to talk to.
pub open spec fn not_started(why: StartFailure) -> ErrorView {
    ErrorView::Internal(
        match why {
            StartFailure::Spawn { executable, script, error } => "claude_sdk: spawn "@ + quoted(
                executable@,
            ) + " "@ + quoted(script@) + ": "@ + error@,
            StartFailure::NoStdin => "claude_sdk: child stdin pipe missing"@,
            StartFailure::NoStdout => "claude_sdk: child stdout pipe missing"@,
        },
    )
}

/// The error where there is no child process to talk to.
pub fn start_error(why: StartFailure) -> (r: ProviderError)
    ensures
        r@ == not_started(why),
{
    let msg: String = match why {
        StartFailure::Spawn { executable, script, error } => {
            let mut m: String = "claude_sdk: spawn ".to_owned();
            m.append(quote(executable.as_str()).as_str());
            m.append(" ");
            m.append(quote(script.as_str()).as_str());
            m.append(": ");
            m.append(error.as_str());
            m
        },
        StartFailure::NoStdin => "claude_sdk: child stdin pipe missing".to_owned(),
        StartFailure::NoStdout => "claude_sdk: child stdout pipe missing".to_owned(),
    };
    ProviderError::Internal(msg)
}

/// The error to tell a call that the child process has left without an answer.
pub fn child_gone_error() -> (r: ProviderError)
    ensures
        r@ == child_gone(),
{
    ProviderError::Internal("claude_sdk: child exited before responding".to_owned())
}

/// Two calls never wait under one id: as long as the ids have not been used up, a new
/// call gets one that no waiting call has, and so does the next.
pub proof fn law_ids_stay_apart(p: PendingView)
    requires
        p.ids_are_fresh(),
        p.next_id < u64::MAX,
    ensures
        !p.waiting.contains(p.next_id),
        p.registered().ids_are_fresh(),
{
}

/// Nothing that happens to a process makes two calls share an id later: giving up a
/// call, a line from the process and its end leave the ids of the waiting calls below
/// the next one.
pub proof fn law_ids_stay_fresh(p: PendingView, id: u64, line: Seq<char>)
    requires
        p.ids_are_fresh(),
    ensures
        p.forgotten(id).ids_are_fresh(),
        after_line(p, line).ids_are_fresh(),
        (PendingView { waiting: Set::empty(), ..p }).ids_are_fresh(),
{
}

/// An answer reaches the call that it is for and no other: every other call goes on
/// waiting.
pub proof fn law_answers_reach_their_call(p: PendingView, line: Seq<char>, other: u64)
    requires
        p.waiting.contains(other),
        !(reply_read(line) is Some && (reply_read(line)->0).0 == other),
    ensures
        after_line(p, line).waiting.contains(other),
        !(dispatched(p, line) matches DispatchView::Deliver { id, .. } && id == other),
{
}

/// Each call is answered at most once: one that has got its answer waits no longer.
pub proof fn law_answered_once(p: PendingView, line: Seq<char>, id: u64)
    requires
        dispatched(p, line) matches DispatchView::Deliver { id: to, .. } && to == id,
    ensures
        p.waiting.contains(id),
        !after_line(p, line).waiting.contains(id),
{
}

/// Which child process is in use. Each has a number of its own.
#[derive(Debug)]
pub struct SessionSlot {
    pub current: Option<u64>,
    pub started: u64,
}

impl SessionSlot {
    /// None is in use.
    pub fn new() -> (r: SessionSlot)
        ensures
            r.current is None,
            r.started == 0,
    {
        SessionSlot { current: None, started: 0 }
    }

    /// A process has been started: it is in use from now on.
    pub fn install(&mut self) -> (r: u64)
        requires
            old(self).started < u64::MAX,
        ensures
            r == old(self).started,
            final(self).current == Some(r),
            final(self).started == old(self).started + 1,
    {
        let n: u64 = self.started;
        self.current = Some(n);
        self.started = n + 1;
        n
    }

    /// A process is dead: if it is still the one in use, none is.
    pub fn clear(&mut self, dead: u64)
        ensures
            final(self).current == (if old(self).current == Some(dead) {
                None
            } else {
                old(self).current
            }),
            final(self).started == old(self).started,
    {
        if let Some(n) = self.current {
            if n == dead {
                self.current = None;
            }
        }
    }
}

/// The text of a duration.
pub uninterp spec fn duration_text(ms: u64) -> Seq<char>;

/// The `Debug` of a `std::time::Duration` of so many milliseconds: a function of
/// their number.
#[verifier::external_body]
fn debug_duration(ms: u64) -> (r: String)
    ensures
        r@ == duration_text(ms),
{
    format!("{:?}", std::time::Duration::from_millis(ms))
}

/// How a call came to its end.
#[derive(Debug)]
pub enum CallEnd {
    /// Something came back for it.
    Replied(Result<DaemonChatReply, ProviderError>),
    /// Its line could not be written.
    WriteFailed { error: String },
    /// Its line could not be pushed out.
    FlushFailed { error: String },
    /// Nothing can come back for it any longer.
    Abandoned,
    /// It took too long.
    OutOfTime,
}

/// What a call came to.
pub open spec fn call_outcome(end: CallEnd, timeout_ms: u64) -> Result<ReplyView, ErrorView> {
    match end {
        CallEnd::Replied(r) => reply_result(r),
        CallEnd::WriteFailed { error } => Err(
            ErrorView::Internal("claude_sdk: write to child stdin failed: "@ + error@),
        ),
        CallEnd::FlushFailed { error } => Err(
            ErrorView::Internal("claude_sdk: flush child stdin failed: "@ + error@),
        ),
        CallEnd::Abandoned => Err(
            ErrorView::Internal("claude_sdk: pending channel dropped (reader task gone)"@),
        ),
        CallEnd::OutOfTime => Err(
            ErrorView::Internal(
                "claude_sdk: timed out in request/reply round-trip after "@ + duration_text(
                    timeout_ms,
                ),
            ),
        ),
    }
}

/// What a call came to, and whether it was the last of its process: after an error
/// the call waits no longer and the process is not used again.
pub struct Settled {
    pub outcome: Result<DaemonChatReply, ProviderError>,
    pub give_up: bool,
}

/// Settles a call.
pub fn settle(end: CallEnd, timeout_ms: u64) -> (r: Settled)
    ensures
        reply_result(r.outcome) == call_outcome(end, timeout_ms),
        r.give_up == (call_outcome(end, timeout_ms) is Err),
{
    let outcome: Result<DaemonChatReply, ProviderError> = match end {
        CallEnd::Replied(x) => x,
        CallEnd::WriteFailed { error } => {
            let mut msg: String = "claude_sdk: write to child stdin failed: ".to_owned();
            msg.append(error.as_str());
            Err(ProviderError::Internal(msg))
        },
        CallEnd::FlushFailed { error } => {
            let mut msg: String = "claude_sdk: flush child stdin failed: ".to_owned();
            msg.append(error.as_str());
            Err(ProviderError::Internal(msg))
        },
        CallEnd::Abandoned => Err(
            ProviderError::Internal(
                "claude_sdk: pending channel dropped (reader task gone)".to_owned(),
            ),
        ),
        CallEnd::OutOfTime => {
            let mut msg: String =
                "claude_sdk: timed out in request/reply round-trip after ".to_owned();
            msg.append(debug_duration(timeout_ms).as_str());
            Err(ProviderError::Internal(msg))
        },
    };
    let give_up: bool = outcome.is_err();
    Settled { outcome, give_up }
}

} // verus!
