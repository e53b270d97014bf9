//! A provider that answers with what it was given beforehand.

use crate::text::byte_count;
use crate::text::byte_len;
use crate::types::{
    copy_events, emit, events, events_result, no_usage, started_event, ChatEvent, ChatRequest,
    ErrorView, EventView, ProviderError, StopReason, Usage,
};
use vstd::prelude::*;
use vstd::string::*;

verus! {

/// An answer that was given beforehand.
#[derive(Debug)]
pub enum CannedResponse {
    /// A reply that is this text.
    Text(String),
    /// A reply that is these events.
    Sequence(Vec<ChatEvent>),
    /// A failure with this message.
    Error(String),
}

/// What such an answer says.
pub enum CannedView {
    Text(Seq<char>),
    Sequence(Seq<EventView>),
    Error(Seq<char>),
}

impl View for CannedResponse {
    type V = CannedView;

    open spec fn view(&self) -> CannedView {
        match self {
            CannedResponse::Text(s) => CannedView::Text(s@),
            CannedResponse::Sequence(v) => CannedView::Sequence(events(v@)),
            CannedResponse::Error(s) => CannedView::Error(s@),
        }
    }
}

impl Clone for CannedResponse {
    fn clone(&self) -> (r: CannedResponse)
        ensures
            r@ == self@,
    {
        match self {
            CannedResponse::Text(s) => CannedResponse::Text(s.clone()),
            CannedResponse::Sequence(v) => CannedResponse::Sequence(copy_events(v)),
            CannedResponse::Error(s) => CannedResponse::Error(s.clone()),
        }
    }
}

impl CannedResponse {
    /// A reply that is this text.
    pub fn text(s: &str) -> (r: CannedResponse)
        ensures
            r@ == CannedView::Text(s@),
    {
        CannedResponse::Text(s.to_owned())
    }
}

/// What a list of answers says.
pub open spec fn canned(s: Seq<CannedResponse>) -> Seq<CannedView> {
    s.map_values(|c: CannedResponse| c@)
}

/// What an answer given beforehand is as a stream. A text is counted as one token
/// for every four bytes.
pub open spec fn answer(c: CannedView, model: Seq<char>) -> Result<Seq<EventView>, ErrorView> {
    match c {
        CannedView::Text(text) => Ok(
            seq![
                started_event(model),
                EventView::Delta { text },
                EventView::Finished {
                    stop_reason: StopReason::EndTurn,
                    usage: Usage { output_tokens: (byte_len(text) / 4) as u64, ..no_usage() },
                },
            ],
        ),
        CannedView::Sequence(s) => Ok(s),
        CannedView::Error(msg) => Err(ErrorView::Internal(msg)),
    }
}

/// Turns an answer given beforehand into a stream.
fn respond(c: CannedResponse, model: &str) -> (r: Result<Vec<ChatEvent>, ProviderError>)
    ensures
        events_result(r) == answer(c@, model@),
{
    match c {
        CannedResponse::Error(msg) => Err(ProviderError::Internal(msg)),
        CannedResponse::Sequence(v) => Ok(v),
        CannedResponse::Text(text) => {
            let tokens: u64 = (byte_count(text.as_str()) / 4) as u64;
            let mut out: Vec<ChatEvent> = Vec::new();
            assert(events(out@) =~= seq![]);
            emit(&mut out, ChatEvent::started(model));
            emit(&mut out, ChatEvent::Delta { text });
            emit(
                &mut out,
                ChatEvent::Finished {
                    stop_reason: StopReason::EndTurn,
                    usage: Usage { output_tokens: tokens, ..Usage::default() },
                },
            );
            assert(events(out@) =~= answer(c@, model@)->Ok_0);
            Ok(out)
        },
    }
}

/// A provider that answers with what it was given beforehand: first what is in the
/// queue, one per call, and then always the same.
#[derive(Debug)]
pub struct MockProvider {
    id: String,
    response: CannedResponse,
    queue: Vec<CannedResponse>,
    history: Vec<ChatRequest>,
}

/// What such a provider holds.
pub struct MockView {
    pub id: Seq<char>,
    pub response: CannedView,
    pub queue: Seq<CannedView>,
    pub history: Seq<ChatRequest>,
}

impl View for MockProvider {
    type V = MockView;

    closed spec fn view(&self) -> MockView {
        MockView {
            id: self.id@,
            response: self.response@,
            queue: canned(self.queue@),
            history: self.history@,
        }
    }
}

impl MockView {
    /// One that always answers the same.
    pub open spec fn always(id: Seq<char>, response: CannedView) -> MockView {
        MockView { id, response, queue: seq![], history: seq![] }
    }

    /// One that answers with each of these in turn, and then with the last of them.
    pub open spec fn in_turn(id: Seq<char>, responses: Seq<CannedView>) -> MockView {
        MockView {
            id,
            response: if responses.len() > 0 {
                responses.last()
            } else {
                CannedView::Text(""@)
            },
            queue: responses,
            history: seq![],
        }
    }

    /// What the next call is answered with.
    pub open spec fn next(self) -> CannedView {
        if self.queue.len() > 0 {
            self.queue[0]
        } else {
            self.response
        }
    }

    /// What is held after a call.
    pub open spec fn after(self, req: ChatRequest) -> MockView {
        MockView {
            queue: if self.queue.len() > 0 {
                self.queue.skip(1)
            } else {
                self.queue
            },
            history: self.history.push(req),
            ..self
        }
    }

    /// What is held after several calls.
    pub open spec fn after_all(self, reqs: Seq<ChatRequest>) -> MockView
        decreases reqs.len(),
    {
        if reqs.len() == 0 {
            self
        } else {
            self.after_all(reqs.drop_last()).after(reqs.last())
        }
    }
}

impl MockProvider {
    /// A provider that always answers the same.
    pub fn new(id: &str, response: CannedResponse) -> (r: MockProvider)
        ensures
            r@ == MockView::always(id@, response@),
    {
        let r: MockProvider = MockProvider {
            id: id.to_owned(),
            response,
            queue: Vec::new(),
            history: Vec::new(),
        };
        assert(canned(r.queue@) =~= seq![]);
        assert(r.history@ =~= seq![]);
        r
    }

    /// A provider that answers with each of these in turn, and then with the last.
    pub fn with_responses(id: &str, responses: Vec<CannedResponse>) -> (r: MockProvider)
        ensures
            r@ == MockView::in_turn(id@, canned(responses@)),
    {
        let n: usize = responses.len();
        let fallback: CannedResponse = if n > 0 {
            responses[n - 1].clone()
        } else {
            CannedResponse::text("")
        };
        let r: MockProvider = MockProvider {
            id: id.to_owned(),
            response: fallback,
            queue: responses,
            history: Vec::new(),
        };
        assert(r.history@ =~= seq![]);
        r
    }

    /// The name.
    pub fn id(&self) -> (r: &str)
        ensures
            r@ == self@.id,
    {
        self.id.as_str()
    }

    /// Sets what is answered when the queue is empty.
    pub fn set_response(&mut self, response: CannedResponse)
        ensures
            final(self)@ == (MockView { response: response@, ..old(self)@ }),
    {
        self.response = response;
    }

    /// The requests so far.
    pub fn history_snapshot(&self) -> (r: &Vec<ChatRequest>)
        ensures
            r@ == self@.history,
    {
        &self.history
    }

    /// The number of calls so far.
    pub fn call_count(&self) -> (r: usize)
        ensures
            r == self@.history.len(),
    {
        self.history.len()
    }

    /// Answers a request, and remembers it.
    pub fn stream(&mut self, req: ChatRequest, model: &str) -> (r: Result<
        Vec<ChatEvent>,
        ProviderError,
    >)
        ensures
            final(self)@ == old(self)@.after(req),
            events_result(r) == answer(old(self)@.next(), model@),
    {
        self.history.push(req);
        let response: CannedResponse = if self.queue.len() > 0 {
            let ghost before = self.queue@;
            let first: CannedResponse = self.queue.remove(0);
            assert(canned(self.queue@) =~= canned(before).skip(1));
            first
        } else {
            self.response.clone()
        };
        respond(response, model)
    }
}

/// Answers that were queued come in their order, one per call; when they are used
/// up, the last of them is repeated. Every request is remembered.
pub proof fn law_answers_come_in_turn(
    id: Seq<char>,
    responses: Seq<CannedView>,
    reqs: Seq<ChatRequest>,
)
    requires
        responses.len() > 0,
    ensures
        MockView::in_turn(id, responses).after_all(reqs).next() == (if reqs.len() < responses.len() {
            responses[reqs.len() as int]
        } else {
            responses.last()
        }),
        MockView::in_turn(id, responses).after_all(reqs).history == reqs,
{
    lemma_after_all(id, responses, reqs);
}

proof fn lemma_after_all(id: Seq<char>, responses: Seq<CannedView>, reqs: Seq<ChatRequest>)
    requires
        responses.len() > 0,
    ensures
        MockView::in_turn(id, responses).after_all(reqs) == (MockView {
            id,
            response: responses.last(),
            queue: if reqs.len() <= responses.len() {
                responses.skip(reqs.len() as int)
            } else {
                seq![]
            },
            history: reqs,
        }),
    decreases reqs.len(),
{
    let start = MockView::in_turn(id, responses);
    if reqs.len() == 0 {
        assert(responses.skip(0) =~= responses);
        assert(reqs =~= seq![]);
    } else {
        let front = reqs.drop_last();
        lemma_after_all(id, responses, front);
        assert(front.push(reqs.last()) =~= reqs);
        if reqs.len() <= responses.len() {
            assert(responses.skip(front.len() as int).skip(1) =~= responses.skip(
                reqs.len() as int,
            ));
        } else if front.len() == responses.len() {
            assert(responses.skip(front.len() as int) =~= seq![]);
        }
    }
}

} // verus!
