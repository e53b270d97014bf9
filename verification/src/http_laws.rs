//! What holds of the calls that the HTTP backends make, and of the replies to them.

use crate::auth::AuthView;
use crate::backends::anthropic::adapter as anthropic;
use crate::backends::anthropic::jobs as anthropic_jobs;
use crate::backends::anthropic::provider::AnthropicProvider;
use crate::backends::gemini::adapter as gemini;
use crate::backends::openai::adapter as openai;
use crate::backends::openai::jobs as openai_jobs;
use crate::backends::openai::batch_laws::law_batch_is_made_of_its_file;
use crate::batch::{results_allowed, running_text, StatusView};
use crate::exchange::{BodyView, CallView, HttpMethod, HttpReply, ReplyBody};
use crate::http_base::{
    ellipsized, failure_message, fitting, header_text, header_value, http_status_text,
    law_cut_is_tight, no_end_slash, number_in, retry_after, url_parse,
};
use crate::json::{serde_parse, JsonView};
use crate::terms::field;
use crate::text::{byte_len, part_at};
use crate::types::ErrorView;
use vstd::prelude::*;
use vstd::string::*;
use vstd::utf8::{decode_utf8, valid_utf8};

verus! {

/// Whether a text speaks of something.
pub open spec fn mentions(s: Seq<char>, w: Seq<char>) -> bool {
    exists|i: int| #[trigger] part_at(s, w, i)
}

/// Whether an error is what this status means, with what the server asked for and said.
pub open spec fn is_failure(
    e: ErrorView,
    status: u16,
    too_long: bool,
    retry: Option<u64>,
    message: Seq<char>,
) -> bool {
    let busy = status == 503 || status == 504;
    &&& e is Auth <==> status == 401 || status == 403
    &&& e is RateLimited <==> status == 429
    &&& e is ModelOverloaded <==> busy
    &&& e is ContextTooLong <==> too_long
    &&& e is Internal <==> 500 <= status < 600 && !busy
    &&& match e {
        ErrorView::Auth(m) => m == message,
        ErrorView::RateLimited { retry_after_ms } => retry_after_ms == retry,
        ErrorView::ModelOverloaded => true,
        ErrorView::ContextTooLong { .. } => true,
        ErrorView::Internal(m) => message.is_suffix_of(m),
        ErrorView::InvalidRequest(m) => message.is_suffix_of(m),
        _ => false,
    }
}

proof fn lemma_said_last(line: Seq<char>, message: Seq<char>)
    ensures
        message.is_suffix_of("status "@ + line + ": "@ + message),
        message.is_suffix_of(message),
{
    let m = "status "@ + line + ": "@ + message;
    assert(m.skip(m.len() - message.len()) =~= message);
    assert(message.skip(0) =~= message);
}

/// A failed call to Anthropic is sorted by its status; one whose message speaks of the
/// context or the limit is too long.
pub proof fn law_anthropic_failures_are_sorted(
    status: u16,
    retry: Option<u64>,
    message: Seq<char>,
    lower: Seq<char>,
    line: Seq<char>,
)
    ensures
        is_failure(
            anthropic::failure(status, retry, message, lower, line),
            status,
            status == 400 && (mentions(lower, "max_tokens"@) || mentions(lower, "context"@)),
            retry,
            message,
        ),
{
    lemma_said_last(line, message);
}

/// A failed call to OpenAI is sorted by its status; one whose message speaks of the length
/// of the context is too long.
pub proof fn law_openai_failures_are_sorted(
    status: u16,
    retry: Option<u64>,
    message: Seq<char>,
    lower: Seq<char>,
    line: Seq<char>,
)
    ensures
        is_failure(
            openai::failure(status, retry, message, lower, line),
            status,
            status == 413 || ((status == 400 || status == 422) && (mentions(
                lower,
                "context_length"@,
            ) || mentions(lower, "maximum context length"@) || mentions(
                lower,
                "too many tokens"@,
            ))),
            retry,
            message,
        ),
{
    lemma_said_last(line, message);
}

/// A failed call to Gemini is sorted by its status; one whose message speaks of the limit
/// of tokens is too long.
pub proof fn law_gemini_failures_are_sorted(
    status: u16,
    retry: Option<u64>,
    message: Seq<char>,
    lower: Seq<char>,
    line: Seq<char>,
)
    ensures
        is_failure(
            gemini::failure(status, retry, message, lower, line),
            status,
            status == 400 && mentions(lower, "token"@) && mentions(lower, "limit"@),
            retry,
            message,
        ),
{
    lemma_said_last(line, message);
}

/// What a server says of a failure is told in its words, or else the body is, as far as
/// its first bytes go.
pub proof fn law_server_is_quoted(body: Seq<char>)
    ensures
        serde_parse(body) matches Ok(v) ==> (field(field(v, "error"@), "message"@) matches
            JsonView::Str(m) ==> failure_message(body) == m),
        !(serde_parse(body) matches Ok(v) && field(field(v, "error"@), "message"@) is Str) ==> {
            &&& byte_len(body) <= 300 ==> failure_message(body) == body
            &&& byte_len(body) > 300 ==> exists|k: int|
                0 <= k < body.len() && failure_message(body) == #[trigger] body.take(k) + "…"@
                    && byte_len(body.take(k)) <= 300
        },
{
    law_cut_is_tight(body, 300);
    let k = fitting(body, 300).len() as int;
    assert(ellipsized(body, 300) == body || ellipsized(body, 300) == body.take(k) + "…"@);
    if byte_len(body) > 300 {
        assert(fitting(body, 300) != body);
        assert(body.take(body.len() as int) =~= body);
    }
}

/// Whether a text is nothing but slashes.
pub open spec fn is_slashes(s: Seq<char>) -> bool {
    forall|i: int| 0 <= i < s.len() ==> #[trigger] s[i] == '/'
}

/// The address of a server loses the slashes at its end and nothing else.
pub proof fn law_only_end_slashes_are_dropped(s: Seq<char>)
    ensures
        no_end_slash(s).len() <= s.len(),
        no_end_slash(s) == s.take(no_end_slash(s).len() as int),
        is_slashes(s.skip(no_end_slash(s).len() as int)),
        no_end_slash(s).len() > 0 ==> no_end_slash(s).last() != '/',
    decreases s.len(),
{
    let t = no_end_slash(s);
    let n = t.len() as int;
    if s.len() > 0 && s.last() == '/' {
        let r = s.drop_last();
        law_only_end_slashes_are_dropped(r);
        assert(s.take(n) =~= r.take(n));
        assert forall|i: int| 0 <= i < s.skip(n).len() implies #[trigger] s.skip(n)[i] == '/' by {
            if n + i < r.len() {
                assert(r.skip(n)[i] == '/');
            }
        }
    } else {
        assert(s.take(n) =~= s);
    }
}

/// A header that is there is found: the first one of its name.
pub proof fn law_first_header_counts(h: Seq<(String, String)>, name: Seq<char>, i: int)
    requires
        0 <= i <= h.len(),
        forall|j: int| 0 <= j < i ==> (#[trigger] h[j]).0@ != name,
        i < h.len() ==> h[i].0@ == name,
    ensures
        header_value(h, name) == (if i < h.len() {
            Some(h[i].1@)
        } else {
            None
        }),
    decreases h.len(),
{
    if h.len() > 0 && i > 0 {
        let t = h.drop_first();
        assert(h[0].0@ != name);
        assert forall|j: int| 0 <= j < i - 1 implies (#[trigger] t[j]).0@ != name by {
            assert(t[j] == h[j + 1]);
        }
        law_first_header_counts(t, name, i - 1);
    }
}

/// The delay that a server asks for is the one in milliseconds, or else the one in
/// seconds, a thousand times over; there is none where neither is a number.
pub proof fn law_delay_is_told(h: Seq<(String, String)>)
    ensures
        ({
            let ms = match header_value(h, "retry-after-ms"@) {
                Some(v) => number_in(v),
                None => None,
            };
            let s = match header_value(h, "retry-after"@) {
                Some(v) => number_in(v),
                None => None,
            };
            &&& ms is Some ==> retry_after(h) == ms
            &&& ms is None && s is Some && s->0 * 1000 <= u64::MAX ==> retry_after(h) == Some(
                (s->0 * 1000) as u64,
            )
            &&& ms is None && s is Some && s->0 * 1000 > u64::MAX ==> retry_after(h) == Some(
                u64::MAX,
            )
            &&& ms is None && s is None ==> retry_after(h) is None
        }),
{
}

/// Whether headers have this one.
pub open spec fn has_header(h: Seq<(Seq<char>, Seq<char>)>, name: Seq<char>, value: Seq<char>) -> bool {
    exists|i: int| 0 <= i < h.len() && #[trigger] h[i] == (name, value)
}

/// A call to Anthropic carries the key, the version and the type of its body. Without a
/// key there is no call.
pub proof fn law_anthropic_calls_carry_the_key(version: Seq<char>, auth: AuthView)
    ensures
        anthropic::request_headers(version, auth) matches Ok(h) ==> {
            &&& auth matches AuthView::ApiKey(k) ==> has_header(h, "x-api-key"@, k)
            &&& auth matches AuthView::Bearer(k) ==> has_header(h, "x-api-key"@, k)
            &&& has_header(h, "anthropic-version"@, version)
            &&& has_header(h, "content-type"@, "application/json"@)
            &&& h.len() == 3
        },
        anthropic::request_headers(version, auth) is Ok <==> header_text(version) && match auth {
            AuthView::Absent => false,
            AuthView::ApiKey(k) => header_text(k),
            AuthView::Bearer(k) => header_text(k),
        },
        auth is Absent && header_text(version) ==> (anthropic::request_headers(
            version,
            auth,
        ) matches Err(e) && e is Auth),
{
    if let Ok(h) = anthropic::request_headers(version, auth) {
        assert(h[0].0 == "content-type"@);
        assert(h[1].0 == "anthropic-version"@);
        assert(h[2].0 == "x-api-key"@);
    }
}

/// A call to OpenAI carries the credential as a bearer, and none where there is none.
pub proof fn law_openai_calls_carry_the_bearer(auth: AuthView)
    ensures
        openai::request_headers(auth) matches Ok(h) ==> {
            &&& auth matches AuthView::ApiKey(k) ==> has_header(h, "authorization"@, "Bearer "@ + k)
            &&& auth matches AuthView::Bearer(k) ==> has_header(h, "authorization"@, "Bearer "@ + k)
            &&& has_header(h, "content-type"@, "application/json"@)
            &&& h.len() == if auth is Absent {
                1int
            } else {
                2
            }
        },
        openai::auth_headers(auth) matches Ok(h) ==> {
            &&& auth matches AuthView::ApiKey(k) ==> h == seq![("authorization"@, "Bearer "@ + k)]
            &&& auth matches AuthView::Bearer(k) ==> h == seq![("authorization"@, "Bearer "@ + k)]
            &&& auth is Absent ==> h.len() == 0
        },
        openai::request_headers(auth) is Ok <==> match auth {
            AuthView::Absent => true,
            AuthView::ApiKey(k) => header_text("Bearer "@ + k),
            AuthView::Bearer(k) => header_text("Bearer "@ + k),
        },
{
    if let Ok(h) = openai::request_headers(auth) {
        assert(h[0].0 == "content-type"@);
        if !(auth is Absent) {
            assert(h[1].0 == "authorization"@);
        }
    }
}

/// A reply that is a success gives the id in it, and one without an id is an error.
pub proof fn law_job_is_known_by_its_id(r: HttpReply, v: JsonView, id: Seq<char>)
    requires
        200 <= r.status < 300,
        r.body matches Ok(b) && b.value() == Some(v),
    ensures
        anthropic_jobs::after_submission(r) == Ok::<Seq<char>, ErrorView>(id) <==> field(v, "id"@)
            == JsonView::Str(id),
        openai_jobs::after_creation(r) == Ok::<Seq<char>, ErrorView>(id) <==> field(v, "id"@)
            == JsonView::Str(id),
{
}

/// A reply that is no success is an error whatever it holds.
pub proof fn law_refused_calls_are_errors(r: HttpReply, base: Seq<char>, auth: AuthView, job: Seq<char>)
    requires
        !(200 <= r.status < 300),
    ensures
        anthropic_jobs::after_submission(r) == Err::<Seq<char>, ErrorView>(
            anthropic_jobs::refusal(r),
        ),
        anthropic_jobs::job_status(r) matches Err(e) && e == anthropic_jobs::refusal(r),
        anthropic_jobs::items_in(r) matches Err(e) && e == anthropic_jobs::refusal(r),
        openai_jobs::after_upload(base, auth, r) matches Err(e) && e == openai_jobs::refusal(r),
        openai_jobs::after_creation(r) == Err::<Seq<char>, ErrorView>(openai_jobs::refusal(r)),
        openai_jobs::job_status(r) matches Err(e) && e == openai_jobs::refusal(r),
        openai_jobs::results_file(job, r) matches Err(e) && e == openai_jobs::refusal(r),
        openai_jobs::downloaded_items(r) matches Err(e) && e == openai_jobs::refusal(r),
        is_failure(
            anthropic_jobs::refusal(r),
            r.status,
            anthropic_jobs::refusal(r) is ContextTooLong,
            retry_after(r.headers@),
            failure_message(r.text()),
        ),
        is_failure(
            openai_jobs::refusal(r),
            r.status,
            openai_jobs::refusal(r) is ContextTooLong,
            retry_after(r.headers@),
            failure_message(r.text()),
        ),
{
    let message = failure_message(r.text());
    lemma_said_last(http_status_text(r.status), message);
}

/// A job is created from the very file whose upload has been confirmed.
pub proof fn law_job_is_made_of_the_upload(
    base: Seq<char>,
    auth: AuthView,
    r: HttpReply,
    v: JsonView,
    call: CallView,
)
    requires
        r.body matches Ok(b) && b.value() == Some(v),
        openai_jobs::after_upload(base, auth, r) == Ok::<CallView, ErrorView>(call),
    ensures
        200 <= r.status < 300,
        call.method == HttpMethod::Post,
        call.body matches BodyView::Value(body) && field(body, "input_file_id"@) == field(v, "id"@)
            && field(v, "id"@) is Str,
        url_parse(no_end_slash(base) + "/batches"@) == Ok::<Seq<char>, Seq<char>>(call.url),
{
    reveal_strlit("");
    if let JsonView::Str(id) = field(v, "id"@) {
        law_batch_is_made_of_its_file(id);
    }
    assert(no_end_slash(base) + "/batches"@ + ""@ =~= no_end_slash(base) + "/batches"@);
}

/// Results are asked for only once a job has come to an end, and at the address of that
/// job.
pub proof fn law_results_are_those_of_the_job(
    p: AnthropicProvider,
    auth: AuthView,
    job: Seq<char>,
    r: HttpReply,
    call: CallView,
)
    requires
        anthropic_jobs::results_call_for(p, auth, job, r) == Ok::<CallView, ErrorView>(call),
    ensures
        anthropic_jobs::job_status(r) matches Ok(s) && !(s is InProgress),
        call.method == HttpMethod::Get,
        call.body is Empty,
        url_parse(
            no_end_slash(p.adapter.base_url@) + "/v1/messages/batches"@ + ("/"@ + job
                + "/results"@),
        ) == Ok::<Seq<char>, Seq<char>>(call.url),
{
}

/// A job of OpenAI that has come to an end gives the file that its object names, and
/// none where it names none.
pub proof fn law_results_file_is_named(job: Seq<char>, r: HttpReply, v: JsonView)
    requires
        200 <= r.status < 300,
        r.body matches Ok(b) && b.value() == Some(v),
        openai_jobs::job_status(r) matches Ok(s) && !(s is InProgress),
    ensures
        openai_jobs::results_file(job, r) matches Ok(file) && match field(v, "output_file_id"@) {
            JsonView::Str(id) => file == Some(id),
            _ => file is None,
        },
{
}

/// The address of a model of Gemini is that of its stream on the server.
pub proof fn law_gemini_model_is_addressed(base: Seq<char>, model: Seq<char>)
    ensures
        gemini::stream_url(base, model) == no_end_slash(base) + "/v1beta/models/"@ + model
            + ":streamGenerateContent?alt=sse"@,
        gemini::request_headers() == seq![("content-type"@, "application/json"@)],
{
}

/// The requests of a batch are uploaded as they are, to the files of the server, with the
/// credential.
pub proof fn law_requests_are_uploaded(
    base: Seq<char>,
    auth: AuthView,
    input: Seq<char>,
    call: CallView,
)
    requires
        openai_jobs::upload(base, auth, input) == Ok::<CallView, ErrorView>(call),
    ensures
        call.method == HttpMethod::Post,
        call.body == BodyView::BatchFile(input),
        openai::auth_headers(auth) == Ok::<Seq<(Seq<char>, Seq<char>)>, ErrorView>(call.headers),
        url_parse(no_end_slash(base) + "/files"@) == Ok::<Seq<char>, Seq<char>>(call.url),
{
    reveal_strlit("");
    assert(no_end_slash(base) + "/files"@ + ""@ =~= no_end_slash(base) + "/files"@);
}

/// What is asked of a job of OpenAI goes to the address of the job or of its file.
pub proof fn law_openai_jobs_are_addressed(base: Seq<char>, suffix: Seq<char>, u: Seq<char>)
    ensures
        openai_jobs::batches_url(base, suffix) == Ok::<Seq<char>, ErrorView>(u) <==> url_parse(
            no_end_slash(base) + "/batches"@ + suffix,
        ) == Ok::<Seq<char>, Seq<char>>(u),
        openai_jobs::files_url(base, suffix) == Ok::<Seq<char>, ErrorView>(u) <==> url_parse(
            no_end_slash(base) + "/files"@ + suffix,
        ) == Ok::<Seq<char>, Seq<char>>(u),
{
}

/// A call to a job of Anthropic carries the key and the body that it is given, to the
/// address of the job.
pub proof fn law_anthropic_jobs_are_called(
    p: AnthropicProvider,
    method: HttpMethod,
    auth: AuthView,
    suffix: Seq<char>,
    body: BodyView,
    call: CallView,
)
    requires
        anthropic_jobs::job_call(p, method, auth, suffix, body) == Ok::<CallView, ErrorView>(call),
    ensures
        call.method == method,
        call.body == body,
        anthropic::request_headers(p.adapter.api_version@, auth) == Ok::<
            Seq<(Seq<char>, Seq<char>)>,
            ErrorView,
        >(call.headers),
        url_parse(no_end_slash(p.adapter.base_url@) + "/v1/messages/batches"@ + suffix) == Ok::<
            Seq<char>,
            Seq<char>,
        >(call.url),
{
}

/// Gemini is called with an API key that is not empty, as it is, and with nothing else.
pub proof fn law_gemini_takes_a_key(auth: AuthView)
    ensures
        gemini::usable_key(auth) is Ok <==> (auth matches AuthView::ApiKey(k) && k.len() > 0),
        gemini::usable_key(auth) matches Ok(key) ==> auth == AuthView::ApiKey(key),
        gemini::usable_key(auth) matches Err(e) ==> e is Auth,
{
}

/// The body of a reply is read as the JSON value that its text holds; bytes that are no
/// text hold none.
pub proof fn law_body_is_read(t: String, b: Vec<u8>, v: JsonView)
    ensures
        ReplyBody::Text(t).value() == Some(v) <==> serde_parse(t@) == Ok::<JsonView, Seq<char>>(v),
        ReplyBody::Text(t).text() == t@,
        ReplyBody::Bytes(b).value() == Some(v) <==> valid_utf8(b@) && serde_parse(decode_utf8(b@))
            == Ok::<JsonView, Seq<char>>(v),
{
}

/// A reply that came with a body that is no JSON, or with none that can be read, is an
/// error where JSON is needed.
pub proof fn law_body_without_json_is_an_error(r: HttpReply, what: Seq<char>)
    ensures
        r.json(what) matches Ok(v) ==> (r.body matches Ok(b) && b.value() == Some(v)),
        r.json(what) is Ok <==> (r.body matches Ok(b) && b.value() is Some),
        r.json(what) matches Err(ErrorView::Parse(m)) ==> what.is_prefix_of(m),
        r.json(what) matches Err(e) ==> e is Parse,
{
    if let Err(ErrorView::Parse(m)) = r.json(what) {
        assert(m.take(what.len() as int) =~= what);
    }
}

/// The results of a job can be fetched as soon as it has come to an end, however it did,
/// and not before.
pub proof fn law_results_wait_for_the_end(job: Seq<char>, s: StatusView)
    ensures
        results_allowed(job, s) is Ok <==> !(s is InProgress),
        results_allowed(job, s) matches Err(e) ==> (e matches ErrorView::InvalidRequest(m)
            && exists|a: Seq<char>, b: Seq<char>| m == #[trigger] (a + job + b)),
{
    if let StatusView::InProgress { processed, total } = s {
        let m = results_allowed(job, s)->Err_0->InvalidRequest_0;
        let rest = " is not yet terminal (status: "@ + running_text(processed, total)
            + ")"@;
        assert(m =~= "batch results: job "@ + job + rest);
    }
}

} // verus!
