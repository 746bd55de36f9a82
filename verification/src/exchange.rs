//! The exchange with DataForSEO: what is sent, when it is sent again, and what comes
//! of the answers.

use crate::dataforseo::{
    auth_header, build_auth_header, build_dfs_task, build_envelope, credentials_come_back,
    credentials_in, envelope_is_readable, envelope_json, envelope_status, fits_envelope,
    outcome_json, outcome_members, providers_are_isolated, succeeded, task_fields, task_json,
    wrap_task_array, OutcomeView, ProviderOutcome,
};
use crate::errors::{
    carries, dataforseo_error, dfs_error_json, error_json, errors_name_the_request, json_error,
    json_response, respond, tells, upstream_errors_tell, BODY_LIMIT,
};
use crate::json::{
    as_str, as_u64, at_key, contents, depth_limit, member, null, parse, parsed, reads_back,
    rendered, shallow,
    string_of, u64_of, Json,
};
use crate::metadata::{
    cents_of, costs, holds_task, metadata_is_the_tasks, metadata_of, model_of, names_model,
    no_task_no_metadata, read_cents, read_model,
};
use crate::providers::{providers_differ, Provider, CHATGPT_URL, GEMINI_URL};
use crate::response::{header_views, push_header, HeaderView, Response};
use crate::text::{contains, contains_text, first_value, occurs_at, optional_text};
use crate::truncation::truncated;
use crate::validation::{field, LlmRequest, LlmRequestView, LocationView};
use serde_json::Value;
use vstd::prelude::*;

verus! {

/// How long to wait before sending again.
pub const RETRY_DELAY_MS: u64 = 1000;

/// How long upstream has to answer.
pub const UPSTREAM_TIMEOUT_MS: u32 = 120_000;

/// A POST request to upstream.
#[derive(Debug)]
pub struct UpstreamCall {
    pub url: String,
    pub headers: Vec<(String, String)>,
    pub body: String,
}

/// What a request to upstream says.
pub struct UpstreamCallView {
    pub url: Seq<char>,
    pub headers: Seq<HeaderView>,
    pub body: Seq<char>,
}

impl View for UpstreamCall {
    type V = UpstreamCallView;

    open spec fn view(&self) -> UpstreamCallView {
        UpstreamCallView {
            url: self.url@,
            headers: header_views(self.headers@),
            body: self.body@,
        }
    }
}

/// A call says its own address, headers and body.
pub proof fn call_says(call: UpstreamCall, i: int)
    ensures
        call@.url == call.url@,
        call@.body == call.body@,
        call@.headers.len() == call.headers@.len(),
        0 <= i < call.headers@.len() ==> call@.headers[i].0 == call.headers@[i].0@
            && call@.headers[i].1 == call.headers@[i].1@,
{
}

impl UpstreamCall {
    /// How long to wait for the answer before giving up.
    pub fn timeout_ms(&self) -> (ms: u32)
        ensures
            ms == UPSTREAM_TIMEOUT_MS,
    {
        UPSTREAM_TIMEOUT_MS
    }
}

/// Whether a call is sent for the first time, or once more.
#[derive(Debug, Clone, Copy, PartialEq, Eq, Structural)]
pub enum Attempt {
    First,
    Retry,
}

/// The exchange of one call: the call, whose request it is for, and which attempt it
/// has come to.
#[derive(Debug)]
pub struct Exchange {
    pub call: UpstreamCall,
    pub request_id: String,
    pub attempt: Attempt,
}

/// What became of sending a call: the status of an answer, that there was none in time,
/// or why there is none.
#[derive(Debug)]
pub enum SendOutcome {
    Answered { status: u16 },
    TimedOut,
    Failed { message: String },
}

/// What became of sending a call.
pub enum SendOutcomeView {
    Answered { status: u16 },
    TimedOut,
    Failed { message: Seq<char> },
}

impl View for SendOutcome {
    type V = SendOutcomeView;

    open spec fn view(&self) -> SendOutcomeView {
        match self {
            SendOutcome::Answered { status } => SendOutcomeView::Answered { status: *status },
            SendOutcome::TimedOut => SendOutcomeView::TimedOut,
            SendOutcome::Failed { message } => SendOutcomeView::Failed { message: message@ },
        }
    }
}

/// A successful answer: its body, and whether it took a second attempt.
#[derive(Debug)]
pub struct FetchResult {
    pub body: String,
    pub retried: bool,
}

/// A failed exchange: what to answer, and whether there was a second attempt.
#[derive(Debug)]
pub struct FetchFailure {
    pub response: Response,
    pub retried: bool,
}

/// What to do once a call is sent.
#[derive(Debug)]
pub enum NextStep {
    /// Wait, and send the call again.
    Retry { delay_ms: u64 },
    /// Read the body of the answer.
    ReadBody { status: u16 },
    /// Give up.
    Stop(FetchFailure),
}

/// What to do once a call is sent; of a failure, the status and the body to answer.
pub enum NextStepView {
    Retry,
    ReadBody { status: u16 },
    Stop { status: u16, json: Json },
}

/// The call that asks a provider what a request asks.
pub open spec fn call_of(
    request: LlmRequestView,
    login: Seq<char>,
    password: Seq<char>,
    request_id: Seq<char>,
) -> UpstreamCallView {
    UpstreamCallView {
        url: request.provider.url_text(),
        headers: seq![
            ("Content-Type"@, "application/json"@),
            ("Authorization"@, auth_header(login, password)),
        ],
        body: rendered(Json::Array(seq![task_json(request, request_id)])),
    }
}

/// Whether a status says that upstream may do better a moment later.
pub open spec fn is_transient(status: u16) -> bool {
    status == 429 || status == 503
}

/// Whether a status says success.
pub open spec fn is_success(status: u16) -> bool {
    200 <= status < 300
}

/// Whether a failure to send reads like a timeout.
pub open spec fn is_timeout(message: Seq<char>) -> bool {
    ||| contains_text(message, "abort"@)
    ||| contains_text(message, "timeout"@)
    ||| contains_text(message, "Timeout"@)
}

/// What the caller is told of a timeout.
pub open spec fn timeout_message(attempt: Attempt) -> Seq<char> {
    match attempt {
        Attempt::First => "DataForSEO request timed out"@,
        Attempt::Retry => "DataForSEO request timed out after retry"@,
    }
}

/// The body of the error that tells of a timeout.
pub open spec fn timeout_json(attempt: Attempt, request_id: Seq<char>) -> Json {
    error_json(timeout_message(attempt), "dataforseo_timeout"@, request_id)
}

/// What to do once a call is sent: a first attempt that met a transient status is made
/// again, any other answer is read, and a timeout or a failure to send ends the exchange.
pub open spec fn next_step(
    attempt: Attempt,
    outcome: SendOutcomeView,
    request_id: Seq<char>,
) -> NextStepView {
    match outcome {
        SendOutcomeView::Answered { status } => if attempt == Attempt::First && is_transient(
            status,
        ) {
            NextStepView::Retry
        } else {
            NextStepView::ReadBody { status }
        },
        SendOutcomeView::TimedOut => NextStepView::Stop {
            status: 504,
            json: timeout_json(attempt, request_id),
        },
        SendOutcomeView::Failed { message } => if is_timeout(message) {
            NextStepView::Stop { status: 504, json: timeout_json(attempt, request_id) }
        } else {
            NextStepView::Stop {
                status: 502,
                json: dfs_error_json(0, message, "dataforseo_error"@, request_id),
            }
        },
    }
}

/// A call is sent once more exactly where its first attempt met a transient status, and
/// never a third time.
pub proof fn retries_once(first: SendOutcomeView, second: SendOutcomeView, request_id: Seq<char>)
    ensures
        next_step(Attempt::First, first, request_id) is Retry <==> (first matches
            SendOutcomeView::Answered { status } && (status == 429 || status == 503)),
        next_step(Attempt::Retry, second, request_id) !is Retry,
{
}

/// Where a call is sent once more, what comes of it is what comes of the second
/// attempt: its answer is read whatever its status, and its timeout or failure is told.
pub proof fn second_attempt_decides(second: SendOutcomeView, request_id: Seq<char>)
    ensures
        match second {
            SendOutcomeView::Answered { status } => next_step(Attempt::Retry, second, request_id)
                == NextStepView::ReadBody { status },
            _ => next_step(Attempt::Retry, second, request_id) is Stop,
        },
{
}

/// A failure to send is told as a timeout exactly where its message holds one of the
/// words for it, and otherwise as an error of upstream that has no status and whose body
/// is the message; a timeout is told as one. Neither is tried again.
pub proof fn failures_are_told(
    attempt: Attempt,
    message: Seq<char>,
    front: Seq<char>,
    back: Seq<char>,
    request_id: Seq<char>,
)
    ensures
        ({
            let told = NextStepView::Stop {
                status: 504,
                json: error_json(
                    if attempt == Attempt::First {
                        "DataForSEO request timed out"@
                    } else {
                        "DataForSEO request timed out after retry"@
                    },
                    "dataforseo_timeout"@,
                    request_id,
                ),
            };
            let failed = SendOutcomeView::Failed { message };
            let holds_word = message == front + "abort"@ + back || message == front + "timeout"@
                + back || message == front + "Timeout"@ + back;
            &&& next_step(attempt, SendOutcomeView::TimedOut, request_id) == told
            &&& holds_word ==> next_step(attempt, failed, request_id) == told
            &&& (forall|a: Seq<char>, b: Seq<char>| message != #[trigger] (a + "abort"@ + b)) && (
            forall|a: Seq<char>, b: Seq<char>| message != #[trigger] (a + "timeout"@ + b)) && (
            forall|a: Seq<char>, b: Seq<char>| message != #[trigger] (a + "Timeout"@ + b)) ==> next_step(
                attempt,
                failed,
                request_id,
            ) == (NextStepView::Stop {
                status: 502,
                json: dfs_error_json(0, message, "dataforseo_error"@, request_id),
            })
        }),
{
    holds_where_it_stands(message, front, "abort"@, back);
    holds_where_it_stands(message, front, "timeout"@, back);
    holds_where_it_stands(message, front, "Timeout"@, back);
    stands_where_it_holds(message, "abort"@);
    stands_where_it_holds(message, "timeout"@);
    stands_where_it_holds(message, "Timeout"@);
}

/// A text holds what stands between its beginning and its end.
proof fn holds_where_it_stands(
    text: Seq<char>,
    front: Seq<char>,
    word: Seq<char>,
    back: Seq<char>,
)
    ensures
        text == front + word + back ==> contains_text(text, word),
{
    if text == front + word + back {
        assert(text.subrange(front.len() as int, (front.len() + word.len()) as int) =~= word);
        assert(occurs_at(text, word, front.len() as int));
    }
}

/// What a text holds stands between a beginning and an end.
proof fn stands_where_it_holds(text: Seq<char>, word: Seq<char>)
    ensures
        contains_text(text, word) ==> exists|a: Seq<char>, b: Seq<char>|
            text == #[trigger] (a + word + b),
{
    if contains_text(text, word) {
        let at = choose|at: int| occurs_at(text, word, at);
        let front = text.take(at);
        let back = text.skip(at + word.len());
        assert(text =~= front + word + back);
    }
}

/// Whether an exchange is about to ask a provider what a request asks. The body of its
/// call is a JSON array that holds one task.
pub open spec fn begins(
    exchange: Exchange,
    request: LlmRequestView,
    login: Seq<char>,
    password: Seq<char>,
    request_id: Seq<char>,
) -> bool {
    &&& exchange.call@ == call_of(request, login, password, request_id)
    &&& parsed(exchange.call.body@) == Some(Json::Array(seq![task_json(request, request_id)]))
    &&& exchange.request_id@ == request_id
    &&& exchange.attempt == Attempt::First
}

/// Begins the exchange that asks a single provider what a request asks.
pub fn fetch_llm(request: &LlmRequest, login: &str, password: &str, request_id: &str) -> (exchange:
    Exchange)
    requires
        request.provider != Provider::Both,
    ensures
        begins(exchange, request@, login@, password@, request_id@),
{
    let url = request.provider.url().to_string();
    let task = build_dfs_task(request, request_id);
    assert(shallow(contents(task), (depth_limit() - 1) as nat)) by {
        reveal_with_fuel(shallow, 2);
    }
    let body = wrap_task_array(task);
    let auth = build_auth_header(login, password);
    let mut headers: Vec<(String, String)> = Vec::new();
    push_header(&mut headers, "Content-Type", "application/json");
    push_header(&mut headers, "Authorization", auth.as_str());
    assert(header_views(headers@) =~= seq![
        ("Content-Type"@, "application/json"@),
        ("Authorization"@, auth_header(login@, password@)),
    ]);
    Exchange {
        call: UpstreamCall { url, headers, body },
        request_id: request_id.to_string(),
        attempt: Attempt::First,
    }
}

impl Exchange {
    /// Whether the call has been sent once more.
    pub open spec fn retried(&self) -> bool {
        self.attempt == Attempt::Retry
    }

    /// Whether the call has been sent once more.
    pub fn is_retry(&self) -> (result: bool)
        ensures
            result == self.retried(),
    {
        match self.attempt {
            Attempt::First => false,
            Attempt::Retry => true,
        }
    }

    /// Tells that upstream did not answer in time, or did not send the whole answer.
    pub fn timed_out(&self) -> (failure: FetchFailure)
        ensures
            carries(
                failure.response@,
                504,
                timeout_json(self.attempt, self.request_id@),
                self.request_id@,
            ),
            failure.retried == self.retried(),
    {
        let told = match self.attempt {
            Attempt::First => "DataForSEO request timed out",
            Attempt::Retry => "DataForSEO request timed out after retry",
        };
        let response = json_error(504, told, "dataforseo_timeout", self.request_id.as_str());
        FetchFailure { response, retried: self.is_retry() }
    }

    /// Decides what to do once the call is sent.
    pub fn after_send(&mut self, outcome: SendOutcome) -> (step: NextStep)
        ensures
            final(self).call == old(self).call,
            final(self).request_id == old(self).request_id,
            match next_step(old(self).attempt, outcome@, old(self).request_id@) {
                NextStepView::Retry => {
                    &&& step == NextStep::Retry { delay_ms: RETRY_DELAY_MS }
                    &&& final(self).attempt == Attempt::Retry
                },
                NextStepView::ReadBody { status } => {
                    &&& step == NextStep::ReadBody { status }
                    &&& final(self).attempt == old(self).attempt
                },
                NextStepView::Stop { status, json } => {
                    &&& step matches NextStep::Stop(failure)
                    &&& carries(failure.response@, status, json, old(self).request_id@)
                    &&& failure.retried == old(self).retried()
                    &&& final(self).attempt == old(self).attempt
                },
            },
    {
        let retried = self.is_retry();
        match outcome {
            SendOutcome::Answered { status } => {
                if !retried && (status == 429 || status == 503) {
                    self.attempt = Attempt::Retry;
                    NextStep::Retry { delay_ms: RETRY_DELAY_MS }
                } else {
                    NextStep::ReadBody { status }
                }
            },
            SendOutcome::TimedOut => NextStep::Stop(self.timed_out()),
            SendOutcome::Failed { message } => {
                let text = message.as_str();
                if contains(text, "abort") || contains(text, "timeout") || contains(
                    text,
                    "Timeout",
                ) {
                    NextStep::Stop(self.timed_out())
                } else {
                    let response = dataforseo_error(
                        0,
                        text,
                        "dataforseo_error",
                        self.request_id.as_str(),
                    );
                    NextStep::Stop(FetchFailure { response, retried })
                }
            },
        }
    }

    /// Whether `result` is what an answer with a status and a body comes to: a success
    /// that holds the body, or an error that tells of it.
    pub open spec fn comes_to(
        &self,
        status: u16,
        body: Seq<char>,
        result: Result<FetchResult, FetchFailure>,
    ) -> bool {
        match result {
            Ok(success) => {
                &&& is_success(status)
                &&& success.body@ == body
                &&& success.retried == self.retried()
            },
            Err(failure) => {
                &&& !is_success(status)
                &&& failure.retried == self.retried()
                &&& carries(
                    failure.response@,
                    502,
                    dfs_error_json(status, body, "dataforseo_error"@, self.request_id@),
                    self.request_id@,
                )
            },
        }
    }

    /// Decides what an answer comes to once its body is read.
    pub fn after_body(&self, status: u16, body: String) -> (result: Result<FetchResult, FetchFailure>)
        ensures
            self.comes_to(status, body@, result),
    {
        let retried = self.is_retry();
        if 200 <= status && status < 300 {
            Ok(FetchResult { body, retried })
        } else {
            let response = dataforseo_error(
                status,
                body.as_str(),
                "dataforseo_error",
                self.request_id.as_str(),
            );
            Err(FetchFailure { response, retried })
        }
    }

    /// Decides what an answer comes to once reading its body has ended: `None` stands for
    /// a body that could not be read, and `aborted` says whether the time was up. A body
    /// that could not be read counts as empty, unless the time was up.
    pub fn after_read(&self, status: u16, read: Option<String>, aborted: bool) -> (result: Result<
        FetchResult,
        FetchFailure,
    >)
        ensures
            match read {
                Some(body) => self.comes_to(status, body@, result),
                None => if aborted {
                    &&& result matches Err(failure)
                    &&& failure.retried == self.retried()
                    &&& carries(
                        failure.response@,
                        504,
                        timeout_json(self.attempt, self.request_id@),
                        self.request_id@,
                    )
                } else {
                    self.comes_to(status, seq![], result)
                },
            },
    {
        match read {
            Some(body) => self.after_body(status, body),
            None => if aborted {
                Err(self.timed_out())
            } else {
                self.after_body(status, String::new())
            },
        }
    }
}

/// An exchange counts as retried exactly once it has come to its second attempt.
pub proof fn retried_is_second_attempt(exchange: Exchange)
    ensures
        exchange.retried() <==> exchange.attempt == Attempt::Retry,
{
}

/// An answer is passed on exactly where its status says success, and then with its own
/// body; any other status is told, with the body. Either says whether it took a second
/// attempt.
pub proof fn only_success_is_passed_on(
    exchange: Exchange,
    status: u16,
    body: Seq<char>,
    result: Result<FetchResult, FetchFailure>,
)
    requires
        exchange.comes_to(status, body, result),
    ensures
        result is Ok <==> 200 <= status <= 299,
        match result {
            Ok(success) => success.body@ == body && (success.retried <==> exchange.attempt
                == Attempt::Retry),
            Err(failure) => {
                &&& failure.retried <==> exchange.attempt == Attempt::Retry
                &&& failure.response.status == 502
                &&& parsed(failure.response.body@) matches Some(error)
                &&& member(error, "request_id"@) == Json::Str(exchange.request_id@)
                &&& member(error, "code"@) == Json::Str("dataforseo_error"@)
                &&& member(error, "dataforseo_status"@) == Json::Int(status as int)
                &&& member(error, "dataforseo_body"@) == Json::Str(truncated(body, 4096))
            },
        },
{
    if let Err(failure) = result {
        upstream_errors_tell(
            failure.response@,
            502,
            status,
            body,
            "dataforseo_error"@,
            exchange.request_id@,
        );
    }
}

/// What a request to both providers asks one of them.
pub open spec fn leg(request: LlmRequestView, provider: Provider) -> LlmRequestView {
    LlmRequestView { provider, ..request }
}

/// Asks one provider what a request asks.
fn make_leg(request: &LlmRequest, provider: Provider) -> (result: LlmRequest)
    ensures
        result@ == leg(request@, provider),
{
    let mut result = request.clone();
    result.provider = provider;
    result
}

/// Both providers are asked the same, each at its own endpoint, except that ChatGPT
/// alone is told to force a web search, where the request asks for it.
pub proof fn legs_ask_the_same(request: LlmRequestView, request_id: Seq<char>, name: Seq<char>)
    ensures
        ({
            let gemini = task_json(leg(request, Provider::Gemini), request_id);
            let chatgpt = task_json(leg(request, Provider::ChatGpt), request_id);
            &&& name != "force_web_search"@ ==> field(gemini, name) == field(chatgpt, name)
            &&& field(gemini, "force_web_search"@) is None
            &&& field(chatgpt, "force_web_search"@) == if request.force_web_search {
                Some(Json::Bool(true))
            } else {
                None
            }
        }),
        leg(request, Provider::Gemini).provider.url_text() == GEMINI_URL@,
        leg(request, Provider::ChatGpt).provider.url_text() == CHATGPT_URL@,
{
    task_fields(leg(request, Provider::Gemini), request_id);
    task_fields(leg(request, Provider::ChatGpt), request_id);
    let gemini = task_json(leg(request, Provider::Gemini), request_id);
    let chatgpt = task_json(leg(request, Provider::ChatGpt), request_id);
    if field(gemini, name) is Some || field(chatgpt, name) is Some {
        assert(field(gemini, name) == field(chatgpt, name) || name == "force_web_search"@);
    }
}

/// Whether a task asks what a request asks: it holds the request's own keyword, language
/// and location, its tag or else its id, and that a web search is forced exactly where
/// that is `forced`.
pub open spec fn asks(
    task: Json,
    request: LlmRequestView,
    forced: bool,
    request_id: Seq<char>,
) -> bool {
    &&& task matches Json::Object(fields)
    &&& fields.contains_key("keyword"@) && fields["keyword"@] == Json::Str(request.keyword)
    &&& fields.contains_key("language_code"@) && fields["language_code"@] == Json::Str(
        request.language,
    )
    &&& match request.location {
        LocationView::Code(code) => {
            &&& fields.contains_key("location_code"@)
            &&& fields["location_code"@] == Json::Int(code as int)
            &&& !fields.contains_key("location_name"@)
        },
        LocationView::Name(name) => {
            &&& fields.contains_key("location_name"@)
            &&& fields["location_name"@] == Json::Str(name)
            &&& !fields.contains_key("location_code"@)
        },
    }
    &&& fields.contains_key("tag"@)
    &&& request.tag matches Some(tag) ==> fields["tag"@] == Json::Str(tag)
    &&& request.tag is None ==> fields["tag"@] == Json::Str(request_id)
    &&& fields.contains_key("force_web_search"@) <==> forced
    &&& forced ==> fields["force_web_search"@] == Json::Bool(true)
}

/// A task asks what its request asks.
proof fn task_asks(request: LlmRequestView, request_id: Seq<char>)
    ensures
        asks(
            task_json(request, request_id),
            request,
            request.force_web_search && request.provider != Provider::Gemini,
            request_id,
        ),
{
    task_fields(request, request_id);
    let task = task_json(request, request_id);
    assert(field(task, "keyword"@) is Some);
    assert(field(task, "language_code"@) is Some);
    assert(field(task, "location_code"@) is Some || field(task, "location_name"@) is Some);
    assert(field(task, "force_web_search"@) is Some || field(task, "force_web_search"@) is None);
    assert(field(task, "tag"@) is Some);
}

/// Each of two providers is asked what the caller asks: the task for it holds the
/// caller's own keyword, language, location and tag, and ChatGPT's alone the forced web
/// search that the caller asks for.
pub proof fn legs_ask_for_the_caller(request: LlmRequestView, request_id: Seq<char>)
    ensures
        asks(
            task_json(leg(request, Provider::Gemini), request_id),
            request,
            false,
            request_id,
        ),
        asks(
            task_json(leg(request, Provider::ChatGpt), request_id),
            request,
            request.force_web_search,
            request_id,
        ),
{
    task_asks(leg(request, Provider::Gemini), request_id);
    task_asks(leg(request, Provider::ChatGpt), request_id);
}

/// Whether an exchange sends one task to an endpoint, under the credentials of a login,
/// and has not sent it yet.
pub open spec fn sends_to(
    exchange: Exchange,
    url: Seq<char>,
    task: Json,
    login: Seq<char>,
    password: Seq<char>,
) -> bool {
    &&& exchange.call.url@ == url
    &&& parsed(exchange.call.body@) == Some(Json::Array(seq![task]))
    &&& exchange.call@.headers.len() == 2
    &&& first_value(exchange.call@.headers, "Content-Type"@) == Some("application/json"@)
    &&& first_value(exchange.call@.headers, "Authorization"@) matches Some(header)
    &&& credentials_in(header) == Some(login + ":"@ + password)
    &&& exchange.attempt == Attempt::First
    &&& !exchange.retried()
}

/// An exchange with one provider sends what the request asks to the endpoint of that
/// provider, under the login and the password.
pub proof fn call_asks_the_provider(
    exchange: Exchange,
    request: LlmRequestView,
    login: Seq<char>,
    password: Seq<char>,
    request_id: Seq<char>,
)
    requires
        request.provider != Provider::Both,
        begins(exchange, request, login, password, request_id),
    ensures
        ({
            let url = if request.provider == Provider::Gemini {
                "https://api.dataforseo.com/v3/ai_optimization/gemini/llm_scraper/live/advanced"@
            } else {
                "https://api.dataforseo.com/v3/ai_optimization/chat_gpt/llm_scraper/live/advanced"@
            };
            &&& sends_to(exchange, url, task_json(request, request_id), login, password)
            &&& asks(
                task_json(request, request_id),
                request,
                request.force_web_search && request.provider == Provider::ChatGpt,
                request_id,
            )
        }),
{
    providers_differ(request.provider);
    task_asks(request, request_id);
    credentials_come_back(login, password);
    reveal_strlit("Content-Type");
    reveal_strlit("Authorization");
    assert("Content-Type"@.len() != "Authorization"@.len());
    reveal_with_fuel(first_value, 3);
}

/// The exchanges with both providers send what the request asks to the endpoint of each,
/// under the login and the password.
pub proof fn calls_ask_both_providers(
    gemini: Exchange,
    chatgpt: Exchange,
    request: LlmRequestView,
    login: Seq<char>,
    password: Seq<char>,
    request_id: Seq<char>,
)
    requires
        begins(gemini, leg(request, Provider::Gemini), login, password, request_id),
        begins(chatgpt, leg(request, Provider::ChatGpt), login, password, request_id),
    ensures
        exists|task: Json|
            asks(task, request, false, request_id) && sends_to(
                gemini,
                "https://api.dataforseo.com/v3/ai_optimization/gemini/llm_scraper/live/advanced"@,
                task,
                login,
                password,
            ),
        exists|task: Json|
            asks(task, request, request.force_web_search, request_id) && sends_to(
                chatgpt,
                "https://api.dataforseo.com/v3/ai_optimization/chat_gpt/llm_scraper/live/advanced"@,
                task,
                login,
                password,
            ),
{
    legs_ask_for_the_caller(request, request_id);
    call_asks_the_provider(gemini, leg(request, Provider::Gemini), login, password, request_id);
    call_asks_the_provider(chatgpt, leg(request, Provider::ChatGpt), login, password, request_id);
}

/// Begins the two exchanges that ask both providers what a request asks: Gemini's, and
/// ChatGPT's.
pub fn fetch_both(request: &LlmRequest, login: &str, password: &str, request_id: &str) -> (result: (
    Exchange,
    Exchange,
))
    ensures
        begins(result.0, leg(request@, Provider::Gemini), login@, password@, request_id@),
        begins(result.1, leg(request@, Provider::ChatGpt), login@, password@, request_id@),
{
    let gemini = make_leg(request, Provider::Gemini);
    let chatgpt = make_leg(request, Provider::ChatGpt);
    (
        fetch_llm(&gemini, login, password, request_id),
        fetch_llm(&chatgpt, login, password, request_id),
    )
}

/// The outcome of an exchange that succeeded with an answer.
pub open spec fn success_view(answer: Json, duration_ms: u64, retried: bool) -> OutcomeView {
    OutcomeView {
        status: "ok"@,
        duration_ms,
        model: model_of(answer),
        dfs_cost_cents: cents_of(member(answer, "cost"@)),
        response_body: Some(answer),
        error: None,
        code: None,
        dataforseo_status: None,
        dataforseo_body: None,
        retried,
    }
}

/// The outcome of an exchange that failed with an error.
pub open spec fn failure_view(error: Json, duration_ms: u64, retried: bool) -> OutcomeView {
    OutcomeView {
        status: "error"@,
        duration_ms,
        model: None,
        dfs_cost_cents: None,
        response_body: None,
        error: string_of(member(error, "error"@)),
        code: string_of(member(error, "code"@)),
        dataforseo_status: match u64_of(member(error, "dataforseo_status"@)) {
            Some(status) => Some((status % 0x1_0000) as u16),
            None => None,
        },
        dataforseo_body: string_of(member(error, "dataforseo_body"@)),
        retried,
    }
}

/// Makes the outcome of an exchange that succeeded with an answer.
pub fn success_outcome(answer: Value, duration_ms: u64, retried: bool) -> (outcome: ProviderOutcome)
    ensures
        outcome@ == success_view(contents(answer), duration_ms, retried),
{
    let model = read_model(&answer);
    let dfs_cost_cents = read_cents(at_key(&answer, "cost"));
    ProviderOutcome {
        status: "ok",
        duration_ms,
        model,
        dfs_cost_cents,
        response_body: Some(answer),
        error: None,
        code: None,
        dataforseo_status: None,
        dataforseo_body: None,
        retried,
    }
}

/// Reads a member that is a text.
fn read_text(value: &Value, key: &str) -> (text: Option<String>)
    ensures
        optional_text(text) == string_of(member(contents(*value), key@)),
{
    match as_str(at_key(value, key)) {
        Some(text) => Some(text.to_string()),
        None => None,
    }
}

/// Makes the outcome of an exchange that failed with an error.
pub fn failure_outcome(error: &Value, duration_ms: u64, retried: bool) -> (outcome: ProviderOutcome)
    ensures
        outcome@ == failure_view(contents(*error), duration_ms, retried),
{
    let dataforseo_status = match as_u64(at_key(error, "dataforseo_status")) {
        Some(status) => {
            assert(status as u16 == status % 0x1_0000) by (bit_vector);
            Some(status as u16)
        },
        None => None,
    };
    ProviderOutcome {
        status: "error",
        duration_ms,
        model: None,
        dfs_cost_cents: None,
        response_body: None,
        error: read_text(error, "error"),
        code: read_text(error, "code"),
        dataforseo_status,
        dataforseo_body: read_text(error, "dataforseo_body"),
        retried,
    }
}

/// What a text spells in JSON; null where it spells nothing.
pub open spec fn parsed_or_null(text: Seq<char>) -> Json {
    match parsed(text) {
        Some(json) => json,
        None => Json::Null,
    }
}

/// Reads a text as JSON; null where it is not.
fn parse_or_null(text: &str) -> (value: Value)
    ensures
        contents(value) == parsed_or_null(text@),
{
    match parse(text) {
        Ok(value) => value,
        Err(_) => null(),
    }
}

/// The outcome of an exchange.
pub open spec fn outcome_of(
    result: Result<FetchResult, FetchFailure>,
    duration_ms: u64,
) -> OutcomeView {
    match result {
        Ok(success) => success_view(
            parsed_or_null(success.body@),
            duration_ms,
            success.retried,
        ),
        Err(failure) => failure_view(
            parsed_or_null(failure.response.body@),
            duration_ms,
            failure.retried,
        ),
    }
}

/// A provider succeeded exactly where its exchange did.
pub proof fn outcome_succeeds(result: Result<FetchResult, FetchFailure>, duration_ms: u64)
    ensures
        succeeded(outcome_of(result, duration_ms)) <==> result is Ok,
{
    reveal_strlit("ok");
    reveal_strlit("error");
    assert("ok"@.len() != "error"@.len());
}

/// The part of a provider that answered says so, in an envelope, whether or not it took a
/// second attempt: how long it took, whether it took a second attempt, the answer, the
/// model that the answer's first task names, and the cost of the whole answer in cents;
/// and no error.
pub proof fn successful_leg_tells(
    success: FetchResult,
    duration_ms: u64,
    answer: Json,
    task: Map<Seq<char>, Json>,
    name: Seq<char>,
    cents: u64,
)
    requires
        parsed(success.body@) == Some(answer),
    ensures
        ({
            let part = outcome_json(outcome_of(Ok(success), duration_ms));
            &&& field(part, "status"@) == Some(Json::Str("ok"@))
            &&& field(part, "duration_ms"@) == Some(Json::Int(duration_ms as int))
            &&& field(part, "retried"@) == Some(Json::Bool(success.retried))
            &&& field(part, "response"@) == Some(answer)
            &&& holds_task(answer, task) ==> (field(part, "model"@) == Some(Json::Str(name))
                <==> names_model(task, name))
            &&& (forall|any: Map<Seq<char>, Json>| !holds_task(answer, any)) ==> field(
                part,
                "model"@,
            ) is None
            &&& field(part, "dfs_cost_cents"@) == Some(Json::Int(cents as int)) <==> (answer matches
                Json::Object(members) && costs(members, cents))
            &&& field(part, "error"@) is None
            &&& field(part, "code"@) is None
            &&& field(part, "dataforseo_status"@) is None
            &&& field(part, "dataforseo_body"@) is None
        }),
{
    outcome_members(outcome_of(Ok(success), duration_ms));
    if holds_task(answer, task) {
        metadata_is_the_tasks(answer, task, name, cents, 0);
    }
    if forall|any: Map<Seq<char>, Json>| !holds_task(answer, any) {
        no_task_no_metadata(answer);
    }
    assert(metadata_of(answer).model == model_of(answer));
    let cost = cents_of(member(answer, "cost"@));
    if cost == Some(cents) {
        assert(answer is Object);
    }
}

/// The outcome of a failed exchange says what the error says: its message, its code, and
/// the status and the body of upstream, each exactly where the error holds it.
pub proof fn failure_tells(
    error: Map<Seq<char>, Json>,
    duration_ms: u64,
    retried: bool,
    text: Seq<char>,
    status: u16,
)
    ensures
        ({
            let outcome = failure_view(Json::Object(error), duration_ms, retried);
            &&& outcome.status == "error"@
            &&& outcome.duration_ms == duration_ms
            &&& outcome.retried == retried
            &&& outcome.response_body is None
            &&& outcome.model is None
            &&& outcome.dfs_cost_cents is None
            &&& outcome.error == Some(text) <==> error.contains_key("error"@) && error["error"@]
                == Json::Str(text)
            &&& outcome.code == Some(text) <==> error.contains_key("code"@) && error["code"@]
                == Json::Str(text)
            &&& outcome.dataforseo_body == Some(text) <==> error.contains_key("dataforseo_body"@)
                && error["dataforseo_body"@] == Json::Str(text)
            &&& error.contains_key("dataforseo_status"@) && error["dataforseo_status"@]
                == Json::Int(status as int) ==> outcome.dataforseo_status == Some(status)
            &&& !error.contains_key("dataforseo_status"@) ==> outcome.dataforseo_status is None
        }),
{
}

/// A provider whose answer is not JSON still answered: null stands for the answer, and
/// nothing else is known of it.
pub proof fn unreadable_leg_tells(success: FetchResult, duration_ms: u64)
    requires
        parsed(success.body@) is None,
    ensures
        ({
            let part = outcome_json(outcome_of(Ok(success), duration_ms));
            &&& field(part, "status"@) == Some(Json::Str("ok"@))
            &&& field(part, "duration_ms"@) == Some(Json::Int(duration_ms as int))
            &&& field(part, "retried"@) == Some(Json::Bool(success.retried))
            &&& field(part, "response"@) == Some(Json::Null)
            &&& field(part, "model"@) is None
            &&& field(part, "dfs_cost_cents"@) is None
            &&& field(part, "error"@) is None
        }),
{
    outcome_members(outcome_of(Ok(success), duration_ms));
}

/// Where upstream refuses one of the two calls, the caller is told as much of it as
/// where it is the only one.
pub proof fn refused_leg_tells(
    failure: FetchFailure,
    status: u16,
    body: Seq<char>,
    request_id: Seq<char>,
    duration_ms: u64,
)
    requires
        carries(
            failure.response@,
            502,
            dfs_error_json(status, body, "dataforseo_error"@, request_id),
            request_id,
        ),
    ensures
        outcome_of(Err(failure), duration_ms) == (OutcomeView {
            status: "error"@,
            duration_ms,
            model: None,
            dfs_cost_cents: None,
            response_body: None,
            error: Some("DataForSEO returned non-success status"@),
            code: Some("dataforseo_error"@),
            dataforseo_status: Some(status),
            dataforseo_body: Some(truncated(body, BODY_LIMIT as nat)),
            retried: failure.retried,
        }),
{
    upstream_errors_tell(
        failure.response@,
        502,
        status,
        body,
        "dataforseo_error"@,
        request_id,
    );
}

/// Where one of the two calls times out, the caller is told so, and nothing of
/// upstream, which gave no answer.
pub proof fn timed_out_leg_tells(
    failure: FetchFailure,
    attempt: Attempt,
    request_id: Seq<char>,
    duration_ms: u64,
)
    requires
        tells(
            failure.response@,
            (504, timeout_message(attempt), "dataforseo_timeout"@),
            request_id,
        ),
    ensures
        outcome_of(Err(failure), duration_ms) == (OutcomeView {
            status: "error"@,
            duration_ms,
            model: None,
            dfs_cost_cents: None,
            response_body: None,
            error: Some(timeout_message(attempt)),
            code: Some("dataforseo_timeout"@),
            dataforseo_status: None,
            dataforseo_body: None,
            retried: failure.retried,
        }),
{
    errors_name_the_request(
        failure.response@,
        (504, timeout_message(attempt), "dataforseo_timeout"@),
        request_id,
    );
}

/// A request to both providers is answered with success where both exchanges succeed,
/// with failure where both fail, and with partial success otherwise; the part of one
/// that succeeds holds its answer whatever became of the other.
pub proof fn both_results(
    gemini: Result<FetchResult, FetchFailure>,
    chatgpt: Result<FetchResult, FetchFailure>,
    gemini_ms: u64,
    chatgpt_ms: u64,
    request_id: Seq<char>,
    total_ms: u64,
)
    ensures
        ({
            let first = outcome_of(gemini, gemini_ms);
            let second = outcome_of(chatgpt, chatgpt_ms);
            let envelope = envelope_json(first, second, request_id, total_ms);
            &&& envelope_status(first, second) == if gemini is Ok && chatgpt is Ok {
                200u16
            } else if gemini is Ok || chatgpt is Ok {
                207
            } else {
                502
            }
            &&& gemini matches Ok(success) ==> member(member(envelope, "gemini"@), "response"@)
                == parsed_or_null(success.body@)
            &&& chatgpt matches Ok(success) ==> member(member(envelope, "chatgpt"@), "response"@)
                == parsed_or_null(success.body@)
        }),
{
    let first = outcome_of(gemini, gemini_ms);
    let second = outcome_of(chatgpt, chatgpt_ms);
    outcome_succeeds(gemini, gemini_ms);
    outcome_succeeds(chatgpt, chatgpt_ms);
    providers_are_isolated(first, second, request_id, total_ms);
    outcome_members(first);
    outcome_members(second);
}

/// Makes the outcome of an exchange.
pub fn fetch_single_for_both(result: Result<FetchResult, FetchFailure>, duration_ms: u64) -> (outcome:
    ProviderOutcome)
    ensures
        outcome@ == outcome_of(result, duration_ms),
{
    match result {
        Ok(success) => {
            let answer = parse_or_null(success.body.as_str());
            success_outcome(answer, duration_ms, success.retried)
        },
        Err(failure) => {
            let error = parse_or_null(failure.response.body.as_str());
            failure_outcome(&error, duration_ms, failure.retried)
        },
    }
}

/// Answers with what both providers made of a request, and says whether either took a
/// second attempt.
pub fn join_outcomes(
    gemini: ProviderOutcome,
    chatgpt: ProviderOutcome,
    request_id: &str,
    total_ms: u64,
) -> (result: (Response, bool))
    ensures
        result.0@ == json_response(
            envelope_status(gemini@, chatgpt@),
            envelope_json(gemini@, chatgpt@, request_id@, total_ms),
            request_id@,
        ),
        fits_envelope(gemini@) && fits_envelope(chatgpt@) ==> reads_back(
            result.0.body@,
            envelope_json(gemini@, chatgpt@, request_id@, total_ms),
        ),
        result.1 == (gemini.retried || chatgpt.retried),
{
    let either_retried = gemini.retried || chatgpt.retried;
    proof {
        if fits_envelope(gemini@) && fits_envelope(chatgpt@) {
            envelope_is_readable(gemini@, chatgpt@, request_id@, total_ms);
        }
    }
    let (status, envelope) = build_envelope(gemini, chatgpt, request_id, total_ms);
    (respond(status, &envelope, request_id), either_retried)
}

} // verus!
