//! The batch jobs of OpenAI, step by step: which call comes next, and what the reply
//! to it means. A batch is handed in by uploading its requests as a file and creating
//! a job from that file; its results are a file to download.

use crate::auth::{AuthView, ResolvedAuth};
use crate::backends::openai::adapter::{
    auth_headers, failure, openai_auth_only_headers, request_headers,
};
use crate::backends::openai::batch::{
    batch_status, create_body, create_value, parse_openai_batch_results, result_entries,
    translate_openai_batch_status,
};
use crate::backends::openai::provider::OpenAiProvider;
use crate::batch::{
    done_result, id_of_reply, items_result, job_result, opt_text_result, reply_id, require_terminal,
    results_allowed, status_result, BatchJobId, BatchResultItem, BatchStatus, ItemView, StatusView,
};
use crate::exchange::{
    call_result, call_with, make_call, suffix_of, BodyView, CallBody, CallView, HttpCall,
    HttpMethod, HttpReply,
};
use crate::http_base::{
    failure_message, http_status_text, lowercase, no_end_slash, retry_after, url_outcome, url_parse,
};
use crate::json::{Json, JsonView};
use crate::text::lines;
use crate::types::{json_result, ErrorView, ProviderError};
use vstd::prelude::*;
use vstd::string::*;

verus! {

/// A URL for files.
pub open spec fn files_url(base: Seq<char>, suffix: Seq<char>) -> Result<Seq<char>, ErrorView> {
    url_outcome(
        url_parse(no_end_slash(base) + "/files"@ + suffix),
        "bad openai files url: "@,
    )
}

/// A URL for batches.
pub open spec fn batches_url(base: Seq<char>, suffix: Seq<char>) -> Result<Seq<char>, ErrorView> {
    url_outcome(
        url_parse(no_end_slash(base) + "/batches"@ + suffix),
        "bad openai batches url: "@,
    )
}

/// What a reply that is no success means.
pub open spec fn refusal(r: HttpReply) -> ErrorView {
    failure(
        r.status,
        retry_after(r.headers@),
        failure_message(r.text()),
        lowercase(failure_message(r.text())),
        http_status_text(r.status),
    )
}

/// What a successful reply holds as JSON, or what went wrong.
pub open spec fn value_in(what: Seq<char>, r: HttpReply) -> Result<JsonView, ErrorView> {
    if r.succeeded() {
        r.json(what)
    } else {
        Err(refusal(r))
    }
}

/// The call that uploads the requests of a batch.
pub open spec fn upload(base: Seq<char>, auth: AuthView, input: Seq<char>) -> Result<
    CallView,
    ErrorView,
> {
    call_with(
        HttpMethod::Post,
        auth_headers(auth),
        files_url(base, ""@),
        BodyView::BatchFile(input),
    )
}

/// The call that creates a job from an uploaded file.
pub open spec fn creation(base: Seq<char>, auth: AuthView, file: Seq<char>) -> Result<
    CallView,
    ErrorView,
> {
    match batches_url(base, ""@) {
        Err(e) => Err(e),
        Ok(url) => call_with(
            HttpMethod::Post,
            request_headers(auth),
            Ok(url),
            BodyView::Value(create_value(file)),
        ),
    }
}

/// What follows on the upload.
pub open spec fn after_upload(base: Seq<char>, auth: AuthView, r: HttpReply) -> Result<
    CallView,
    ErrorView,
> {
    match value_in("file upload"@, r) {
        Err(e) => Err(e),
        Ok(v) => match reply_id("file upload"@, v) {
            Err(e) => Err(e),
            Ok(file) => creation(base, auth, file),
        },
    }
}

/// What follows on the creation: the id of the job.
pub open spec fn after_creation(r: HttpReply) -> Result<Seq<char>, ErrorView> {
    match value_in("batch create"@, r) {
        Err(e) => Err(e),
        Ok(v) => reply_id("batch create"@, v),
    }
}

/// Where a job stands, as its object says.
pub open spec fn job_status(r: HttpReply) -> Result<StatusView, ErrorView> {
    match value_in("batch fetch"@, r) {
        Err(e) => Err(e),
        Ok(v) => batch_status(v),
    }
}

/// The file with the results of a job: nothing where a job that has ended has none,
/// and an error while the job still runs.
pub open spec fn results_file(job: Seq<char>, r: HttpReply) -> Result<
    Option<Seq<char>>,
    ErrorView,
> {
    match value_in("batch fetch"@, r) {
        Err(e) => Err(e),
        Ok(v) => match batch_status(v) {
            Err(e) => Err(e),
            Ok(s) => match results_allowed(job, s) {
                Err(e) => Err(e),
                Ok(_) => Ok(v.at("output_file_id"@).as_str()),
            },
        },
    }
}

/// The results in a download.
pub open spec fn downloaded_items(r: HttpReply) -> Result<Seq<ItemView>, ErrorView> {
    if r.succeeded() {
        match r.body {
            Ok(b) => result_entries(lines(b.text())),
            Err(e) => Err(e.error@),
        }
    } else {
        Err(refusal(r))
    }
}

impl OpenAiProvider {
    /// Reads a successful reply as JSON.
    fn value_of(&self, what: &str, reply: &HttpReply) -> (r: Result<Json, ProviderError>)
        requires
            reply.valid(),
        ensures
            json_result(r) == value_in(what@, *reply),
    {
        if reply.is_success() {
            reply.read_json(what)
        } else {
            Err(
                self.adapter.classify_error(
                    reply.status,
                    &reply.headers,
                    reply.text_or_empty().as_str(),
                ),
            )
        }
    }

    /// The call that uploads the requests of a batch.
    pub fn upload_call(&self, auth: &ResolvedAuth, input: String) -> (r: Result<
        HttpCall,
        ProviderError,
    >)
        ensures
            call_result(r) == upload(self.adapter.base_url@, auth@, input@),
    {
        make_call(
            HttpMethod::Post,
            openai_auth_only_headers(auth),
            self.adapter.files_url(""),
            CallBody::BatchFile(input),
        )
    }

    /// The upload is through: the call that creates the job.
    pub fn on_uploaded(&self, auth: &ResolvedAuth, reply: &HttpReply) -> (r: Result<
        HttpCall,
        ProviderError,
    >)
        requires
            reply.valid(),
        ensures
            call_result(r) == after_upload(self.adapter.base_url@, auth@, *reply),
    {
        let v: Json = match self.value_of("file upload", reply) {
            Ok(v) => v,
            Err(e) => {
                return Err(e);
            },
        };
        let file: String = match id_of_reply("file upload", &v) {
            Ok(id) => id,
            Err(e) => {
                return Err(e);
            },
        };
        match self.adapter.batches_url("") {
            Err(e) => Err(e),
            Ok(url) => make_call(
                HttpMethod::Post,
                self.adapter.build_headers(auth),
                Ok(url),
                CallBody::Value(create_body(file.as_str())),
            ),
        }
    }

    /// The creation is through: the id of the job.
    pub fn on_created(&self, reply: &HttpReply) -> (r: Result<BatchJobId, ProviderError>)
        requires
            reply.valid(),
        ensures
            job_result(r) == after_creation(*reply),
    {
        let v: Json = match self.value_of("batch create", reply) {
            Ok(v) => v,
            Err(e) => {
                return Err(e);
            },
        };
        match id_of_reply("batch create", &v) {
            Ok(id) => Ok(BatchJobId::new(id)),
            Err(e) => Err(e),
        }
    }

    /// The call that asks for the object of a job.
    pub fn fetch_call(&self, auth: &ResolvedAuth, job: &BatchJobId) -> (r: Result<
        HttpCall,
        ProviderError,
    >)
        ensures
            call_result(r) == call_with(
                HttpMethod::Get,
                request_headers(auth@),
                batches_url(self.adapter.base_url@, "/"@ + job.id@),
                BodyView::Empty,
            ),
    {
        proof {
            reveal_strlit("");
        }
        let suffix: String = suffix_of(job.id.as_str(), "");
        assert(suffix@ =~= "/"@ + job.id@);
        make_call(
            HttpMethod::Get,
            self.adapter.build_headers(auth),
            self.adapter.batches_url(suffix.as_str()),
            CallBody::Empty,
        )
    }

    /// Where a job stands, by the reply with its object.
    pub fn status(&self, reply: &HttpReply) -> (r: Result<BatchStatus, ProviderError>)
        requires
            reply.valid(),
        ensures
            status_result(r) == job_status(*reply),
    {
        match self.value_of("batch fetch", reply) {
            Ok(v) => translate_openai_batch_status(&v),
            Err(e) => Err(e),
        }
    }

    /// The file with the results of a job, by the reply with its object.
    pub fn results_file(&self, job: &BatchJobId, reply: &HttpReply) -> (r: Result<
        Option<String>,
        ProviderError,
    >)
        requires
            reply.valid(),
        ensures
            opt_text_result(r) == results_file(job.id@, *reply),
    {
        let v: Json = match self.value_of("batch fetch", reply) {
            Ok(v) => v,
            Err(e) => {
                return Err(e);
            },
        };
        let state: BatchStatus = match translate_openai_batch_status(&v) {
            Ok(s) => s,
            Err(e) => {
                return Err(e);
            },
        };
        match require_terminal(job, &state) {
            Err(e) => Err(e),
            Ok(_) => match v.str_at("output_file_id") {
                Some(file) => Ok(Some(file.to_owned())),
                None => Ok(None),
            },
        }
    }

    /// The call that downloads a file.
    pub fn download_call(&self, auth: &ResolvedAuth, file: &str) -> (r: Result<
        HttpCall,
        ProviderError,
    >)
        ensures
            call_result(r) == call_with(
                HttpMethod::Get,
                auth_headers(auth@),
                files_url(self.adapter.base_url@, "/"@ + file@ + "/content"@),
                BodyView::Empty,
            ),
    {
        make_call(
            HttpMethod::Get,
            openai_auth_only_headers(auth),
            self.adapter.files_url(suffix_of(file, "/content").as_str()),
            CallBody::Empty,
        )
    }

    /// The download is through: the results.
    pub fn on_downloaded(&self, reply: HttpReply) -> (r: Result<
        Vec<BatchResultItem>,
        ProviderError,
    >)
        requires
            reply.valid(),
        ensures
            items_result(r) == downloaded_items(reply),
    {
        if reply.is_success() {
            match reply.body {
                Ok(b) => parse_openai_batch_results(b.to_text().as_str()),
                Err(e) => Err(e.error),
            }
        } else {
            Err(
                self.adapter.classify_error(
                    reply.status,
                    &reply.headers,
                    reply.text_or_empty().as_str(),
                ),
            )
        }
    }

    /// The call that cancels a job.
    pub fn cancel_call(&self, auth: &ResolvedAuth, job: &BatchJobId) -> (r: Result<
        HttpCall,
        ProviderError,
    >)
        ensures
            call_result(r) == call_with(
                HttpMethod::Post,
                request_headers(auth@),
                batches_url(self.adapter.base_url@, "/"@ + job.id@ + "/cancel"@),
                BodyView::Empty,
            ),
    {
        make_call(
            HttpMethod::Post,
            self.adapter.build_headers(auth),
            self.adapter.batches_url(suffix_of(job.id.as_str(), "/cancel").as_str()),
            CallBody::Empty,
        )
    }

    /// Whether a job was cancelled.
    pub fn on_cancelled(&self, reply: &HttpReply) -> (r: Result<(), ProviderError>)
        requires
            reply.valid(),
        ensures
            done_result(r) == (if reply.succeeded() {
                Ok(())
            } else {
                Err(refusal(*reply))
            }),
    {
        if reply.is_success() {
            Ok(())
        } else {
            Err(
                self.adapter.classify_error(
                    reply.status,
                    &reply.headers,
                    reply.text_or_empty().as_str(),
                ),
            )
        }
    }
}

/// The results of a job that still runs are never fetched, whatever its object says
/// besides.
pub proof fn law_running_job_has_no_results(job: Seq<char>, r: HttpReply)
    requires
        job_status(r) matches Ok(s) && s is InProgress,
    ensures
        results_file(job, r) is Err,
{
}

} // verus!
