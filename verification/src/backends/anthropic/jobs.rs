//! The batch jobs of Anthropic, step by step: which call comes next, and what the
//! reply to it means.

use crate::auth::{AuthView, ResolvedAuth};
use crate::backends::anthropic::adapter::{failure, request_headers};
use crate::backends::anthropic::batch::{
    batch_status, parse_batch_results, result_entries, translate_batch_status,
};
use crate::backends::anthropic::provider::AnthropicProvider;
use crate::batch::{
    done_result, id_of_reply, items_result, job_result, reply_id, require_terminal, results_allowed,
    status_result, BatchJobId, BatchResultItem, BatchStatus, ItemView, StatusView,
};
use crate::exchange::{
    call_result, call_with, make_call, suffix_of, BodyView, CallBody, CallView, HttpCall,
    HttpMethod, HttpReply,
};
use crate::http_base::{
    failure_message, http_status_text, lowercase, no_end_slash, retry_after, url_outcome, url_parse,
};
use crate::json::{Json, JsonView};
use crate::text::lines;
use crate::types::{json_result, ErrorView, ProviderError};
use vstd::prelude::*;
use vstd::string::*;

verus! {

/// A URL for batches.
pub open spec fn batch_url(base: Seq<char>, suffix: Seq<char>) -> Result<Seq<char>, ErrorView> {
    url_outcome(
        url_parse(no_end_slash(base) + "/v1/messages/batches"@ + suffix),
        "bad anthropic batch url: "@,
    )
}

/// What a reply that is no success means.
pub open spec fn refusal(r: HttpReply) -> ErrorView {
    failure(
        r.status,
        retry_after(r.headers@),
        failure_message(r.text()),
        lowercase(failure_message(r.text())),
        http_status_text(r.status),
    )
}

/// What a successful reply holds as JSON, or what went wrong.
pub open spec fn value_in(what: Seq<char>, r: HttpReply) -> Result<JsonView, ErrorView> {
    if r.succeeded() {
        r.json(what)
    } else {
        Err(refusal(r))
    }
}

/// What follows on handing a batch in: the id of the job.
pub open spec fn after_submission(r: HttpReply) -> Result<Seq<char>, ErrorView> {
    match value_in("batch submit"@, r) {
        Err(e) => Err(e),
        Ok(v) => reply_id("batch submit"@, v),
    }
}

/// Where a job stands.
pub open spec fn job_status(r: HttpReply) -> Result<StatusView, ErrorView> {
    match value_in("batch status"@, r) {
        Err(e) => Err(e),
        Ok(v) => batch_status(v),
    }
}

/// A call to a job, or to all of them.
pub open spec fn job_call(
    p: AnthropicProvider,
    method: HttpMethod,
    auth: AuthView,
    suffix: Seq<char>,
    body: BodyView,
) -> Result<CallView, ErrorView> {
    call_with(
        method,
        request_headers(p.adapter.api_version@, auth),
        batch_url(p.adapter.base_url@, suffix),
        body,
    )
}

/// The call for the results of a job, by the reply that says where the job stands:
/// there is none while the job still runs.
pub open spec fn results_call_for(
    p: AnthropicProvider,
    auth: AuthView,
    job: Seq<char>,
    r: HttpReply,
) -> Result<CallView, ErrorView> {
    match job_status(r) {
        Err(e) => Err(e),
        Ok(s) => match results_allowed(job, s) {
            Err(e) => Err(e),
            Ok(_) => job_call(
                p,
                HttpMethod::Get,
                auth,
                "/"@ + job + "/results"@,
                BodyView::Empty,
            ),
        },
    }
}

/// The results in a reply.
pub open spec fn items_in(r: HttpReply) -> Result<Seq<ItemView>, ErrorView> {
    if r.succeeded() {
        match r.body {
            Ok(b) => result_entries(lines(b.text())),
            Err(e) => Err(e.error@),
        }
    } else {
        Err(refusal(r))
    }
}

impl AnthropicProvider {
    /// Reads a successful reply as JSON.
    fn value_of(&self, what: &str, reply: &HttpReply) -> (r: Result<Json, ProviderError>)
        requires
            reply.valid(),
        ensures
            json_result(r) == value_in(what@, *reply),
    {
        if reply.is_success() {
            reply.read_json(what)
        } else {
            Err(
                self.adapter.classify_error(
                    reply.status,
                    &reply.headers,
                    reply.text_or_empty().as_str(),
                ),
            )
        }
    }

    /// A call to a job, or to all of them.
    fn call(&self, method: HttpMethod, auth: &ResolvedAuth, suffix: &str, body: CallBody) -> (r:
        Result<HttpCall, ProviderError>)
        ensures
            call_result(r) == job_call(*self, method, auth@, suffix@, body@),
    {
        make_call(
            method,
            self.adapter.build_headers(auth),
            self.adapter.batch_url(suffix),
            body,
        )
    }

    /// The call that hands a batch in.
    pub fn submit_call(&self, auth: &ResolvedAuth, body: Json) -> (r: Result<
        HttpCall,
        ProviderError,
    >)
        ensures
            call_result(r) == job_call(
                *self,
                HttpMethod::Post,
                auth@,
                ""@,
                BodyView::Value(body@),
            ),
    {
        self.call(HttpMethod::Post, auth, "", CallBody::Value(body))
    }

    /// The batch has been handed in: the id of the job.
    pub fn on_submitted(&self, reply: &HttpReply) -> (r: Result<BatchJobId, ProviderError>)
        requires
            reply.valid(),
        ensures
            job_result(r) == after_submission(*reply),
    {
        let v: Json = match self.value_of("batch submit", reply) {
            Ok(v) => v,
            Err(e) => {
                return Err(e);
            },
        };
        match id_of_reply("batch submit", &v) {
            Ok(id) => Ok(BatchJobId::new(id)),
            Err(e) => Err(e),
        }
    }

    /// The call that asks where a job stands.
    pub fn status_call(&self, auth: &ResolvedAuth, job: &BatchJobId) -> (r: Result<
        HttpCall,
        ProviderError,
    >)
        ensures
            call_result(r) == job_call(
                *self,
                HttpMethod::Get,
                auth@,
                "/"@ + job.id@,
                BodyView::Empty,
            ),
    {
        proof {
            reveal_strlit("");
        }
        let suffix: String = suffix_of(job.id.as_str(), "");
        assert(suffix@ =~= "/"@ + job.id@);
        self.call(HttpMethod::Get, auth, suffix.as_str(), CallBody::Empty)
    }

    /// Where a job stands.
    pub fn status(&self, reply: &HttpReply) -> (r: Result<BatchStatus, ProviderError>)
        requires
            reply.valid(),
        ensures
            status_result(r) == job_status(*reply),
    {
        match self.value_of("batch status", reply) {
            Ok(v) => translate_batch_status(&v),
            Err(e) => Err(e),
        }
    }

    /// The call for the results of a job, by the reply that says where the job stands.
    pub fn results_call(&self, auth: &ResolvedAuth, job: &BatchJobId, reply: &HttpReply) -> (r:
        Result<HttpCall, ProviderError>)
        requires
            reply.valid(),
        ensures
            call_result(r) == results_call_for(*self, auth@, job.id@, *reply),
    {
        let state: BatchStatus = match self.status(reply) {
            Ok(s) => s,
            Err(e) => {
                return Err(e);
            },
        };
        match require_terminal(job, &state) {
            Err(e) => Err(e),
            Ok(_) => self.call(
                HttpMethod::Get,
                auth,
                suffix_of(job.id.as_str(), "/results").as_str(),
                CallBody::Empty,
            ),
        }
    }

    /// The results are there.
    pub fn on_results(&self, reply: HttpReply) -> (r: Result<Vec<BatchResultItem>, ProviderError>)
        requires
            reply.valid(),
        ensures
            items_result(r) == items_in(reply),
    {
        if reply.is_success() {
            match reply.body {
                Ok(b) => parse_batch_results(b.to_text().as_str()),
                Err(e) => Err(e.error),
            }
        } else {
            Err(
                self.adapter.classify_error(
                    reply.status,
                    &reply.headers,
                    reply.text_or_empty().as_str(),
                ),
            )
        }
    }

    /// The call that cancels a job.
    pub fn cancel_call(&self, auth: &ResolvedAuth, job: &BatchJobId) -> (r: Result<
        HttpCall,
        ProviderError,
    >)
        ensures
            call_result(r) == job_call(
                *self,
                HttpMethod::Post,
                auth@,
                "/"@ + job.id@ + "/cancel"@,
                BodyView::Empty,
            ),
    {
        self.call(
            HttpMethod::Post,
            auth,
            suffix_of(job.id.as_str(), "/cancel").as_str(),
            CallBody::Empty,
        )
    }

    /// Whether a job was cancelled.
    pub fn on_cancelled(&self, reply: &HttpReply) -> (r: Result<(), ProviderError>)
        requires
            reply.valid(),
        ensures
            done_result(r) == (if reply.succeeded() {
                Ok(())
            } else {
                Err(refusal(*reply))
            }),
    {
        if reply.is_success() {
            Ok(())
        } else {
            Err(
                self.adapter.classify_error(
                    reply.status,
                    &reply.headers,
                    reply.text_or_empty().as_str(),
                ),
            )
        }
    }
}

/// The results of a job that still runs are never asked for.
pub proof fn law_running_job_is_left_alone(
    p: AnthropicProvider,
    auth: AuthView,
    job: Seq<char>,
    r: HttpReply,
)
    requires
        job_status(r) matches Ok(s) && s is InProgress,
    ensures
        results_call_for(p, auth, job, r) is Err,
{
}

} // verus!
