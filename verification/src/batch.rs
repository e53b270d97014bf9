//! Batch jobs: many requests handed in at once, with a result for each later on.

use crate::json::{Json, JsonView};
use crate::text::{decimal, decimal_of};
use crate::types::{ChatResponse, ErrorView, ProviderError, ResponseView};
use vstd::prelude::*;
use vstd::string::*;

verus! {

/// The caller's name of one request in a batch.
#[derive(Debug, PartialEq)]
pub struct BatchItemId {
    pub id: String,
}

impl BatchItemId {
    /// The id with this text.
    pub fn new(id: String) -> (r: BatchItemId)
        ensures
            r.id == id,
    {
        BatchItemId { id }
    }
}

/// The provider's name of a batch.
#[derive(Debug, PartialEq)]
pub struct BatchJobId {
    pub id: String,
}

impl BatchJobId {
    /// The id with this text.
    pub fn new(id: String) -> (r: BatchJobId)
        ensures
            r.id == id,
    {
        BatchJobId { id }
    }
}

/// Where a batch stands.
#[derive(Debug, PartialEq)]
pub enum BatchStatus {
    InProgress { processed: u32, total: Option<u32> },
    Completed,
    Failed { kind: String, message: String },
    Cancelled,
    Expired,
}

/// What is known of a batch.
pub enum StatusView {
    InProgress { processed: u32, total: Option<u32> },
    Completed,
    Failed { kind: Seq<char>, message: Seq<char> },
    Cancelled,
    Expired,
}

impl View for BatchStatus {
    type V = StatusView;

    open spec fn view(&self) -> StatusView {
        match *self {
            BatchStatus::InProgress { processed, total } => StatusView::InProgress {
                processed,
                total,
            },
            BatchStatus::Completed => StatusView::Completed,
            BatchStatus::Failed { kind, message } => StatusView::Failed {
                kind: kind@,
                message: message@,
            },
            BatchStatus::Cancelled => StatusView::Cancelled,
            BatchStatus::Expired => StatusView::Expired,
        }
    }
}

/// What the outcome of reading a status says.
pub open spec fn status_result(r: Result<BatchStatus, ProviderError>) -> Result<
    StatusView,
    ErrorView,
> {
    match r {
        Ok(s) => Ok(s@),
        Err(e) => Err(e@),
    }
}

/// A batch that is still running, in words.
pub open spec fn running_text(processed: u32, total: Option<u32>) -> Seq<char> {
    "InProgress { processed: "@ + decimal(processed as nat) + ", total: "@ + (match total {
        Some(n) => "Some("@ + decimal(n as nat) + ")"@,
        None => "None"@,
    }) + ", eta: None }"@
}

/// Whether results can be fetched: those of a batch that is still running cannot.
pub open spec fn results_allowed(job: Seq<char>, s: StatusView) -> Result<(), ErrorView> {
    match s {
        StatusView::InProgress { processed, total } => Err(
            ErrorView::InvalidRequest(
                "batch results: job "@ + job + " is not yet terminal (status: "@ + running_text(
                    processed,
                    total,
                ) + ")"@,
            ),
        ),
        _ => Ok(()),
    }
}

impl BatchStatus {
    /// Whether the batch will not change any more.
    pub fn is_terminal(&self) -> (r: bool)
        ensures
            r == !(self@ is InProgress),
    {
        match self {
            BatchStatus::InProgress { .. } => false,
            _ => true,
        }
    }
}

/// Refuses to fetch the results of a batch that is still running.
pub fn require_terminal(job: &BatchJobId, status: &BatchStatus) -> (r: Result<(), ProviderError>)
    ensures
        match r {
            Ok(_) => results_allowed(job.id@, status@) is Ok,
            Err(e) => results_allowed(job.id@, status@) == Err::<(), ErrorView>(e@),
        },
{
    if let BatchStatus::InProgress { processed, total } = status {
        let mut state: String = "InProgress { processed: ".to_owned();
        state.append(decimal_of(*processed as u64).as_str());
        state.append(", total: ");
        let shown: String = match total {
            Some(n) => {
                let mut t: String = "Some(".to_owned();
                t.append(decimal_of(*n as u64).as_str());
                t.append(")");
                t
            },
            None => "None".to_owned(),
        };
        state.append(shown.as_str());
        state.append(", eta: None }");
        let mut msg: String = "batch results: job ".to_owned();
        msg.append(job.id.as_str());
        msg.append(" is not yet terminal (status: ");
        msg.append(state.as_str());
        msg.append(")");
        return Err(ProviderError::InvalidRequest(msg));
    }
    Ok(())
}

/// The result of one request of a batch.
#[derive(Debug, PartialEq)]
pub struct BatchResultItem {
    pub item_id: BatchItemId,
    pub result: Result<ChatResponse, ProviderError>,
}

/// What the result of one request says.
pub struct ItemView {
    pub item_id: Seq<char>,
    pub result: Result<ResponseView, ErrorView>,
}

impl View for BatchResultItem {
    type V = ItemView;

    open spec fn view(&self) -> ItemView {
        ItemView {
            item_id: self.item_id.id@,
            result: match self.result {
                Ok(r) => Ok(r@),
                Err(e) => Err(e@),
            },
        }
    }
}

/// What the results of a batch say.
pub open spec fn items(s: Seq<BatchResultItem>) -> Seq<ItemView> {
    s.map_values(|i: BatchResultItem| i@)
}

/// What the outcome of reading results says.
pub open spec fn items_result(r: Result<Vec<BatchResultItem>, ProviderError>) -> Result<
    Seq<ItemView>,
    ErrorView,
> {
    match r {
        Ok(v) => Ok(items(v@)),
        Err(e) => Err(e@),
    }
}

/// What the outcome of reading one result says.
pub open spec fn item_result(r: Result<BatchResultItem, ProviderError>) -> Result<
    ItemView,
    ErrorView,
> {
    match r {
        Ok(v) => Ok(v@),
        Err(e) => Err(e@),
    }
}

/// A complaint about one line of a results file.
pub open spec fn line_problem(n: nat, what: Seq<char>) -> ErrorView {
    ErrorView::Parse("batch results line "@ + decimal(n) + ": "@ + what)
}

/// Complains about one line of a results file.
pub fn line_error(n: usize, what: &str) -> (r: ProviderError)
    ensures
        r@ == line_problem(n as nat, what@),
{
    let mut msg: String = "batch results line ".to_owned();
    msg.append(decimal_of(n as u64).as_str());
    msg.append(": ");
    msg.append(what);
    ProviderError::Parse(msg)
}

/// The id in a reply, or an error that says which reply lacks it.
pub open spec fn reply_id(what: Seq<char>, v: JsonView) -> Result<Seq<char>, ErrorView> {
    match v.at("id"@).as_str() {
        Some(id) => Ok(id),
        None => Err(ErrorView::Parse(what + ": response missing `id`"@)),
    }
}

/// Reads the id in a reply.
pub fn id_of_reply(what: &str, v: &Json) -> (r: Result<String, ProviderError>)
    ensures
        crate::types::text_result(r) == reply_id(what@, v@),
{
    match v.str_at("id") {
        Some(id) => Ok(id.to_owned()),
        None => {
            let mut msg: String = what.to_owned();
            msg.append(": response missing `id`");
            Err(ProviderError::Parse(msg))
        },
    }
}

/// What an optional text that may not come about says.
pub open spec fn opt_text_result(r: Result<Option<String>, ProviderError>) -> Result<
    Option<Seq<char>>,
    ErrorView,
> {
    match r {
        Ok(o) => Ok(crate::text::opt_str(o)),
        Err(e) => Err(e@),
    }
}

/// What the id of a job that may not come about says.
pub open spec fn job_result(r: Result<BatchJobId, ProviderError>) -> Result<Seq<char>, ErrorView> {
    match r {
        Ok(j) => Ok(j.id@),
        Err(e) => Err(e@),
    }
}

/// What a refusal that may not come about says.
pub open spec fn done_result(r: Result<(), ProviderError>) -> Result<(), ErrorView> {
    match r {
        Ok(_) => Ok(()),
        Err(e) => Err(e@),
    }
}

} // verus!
