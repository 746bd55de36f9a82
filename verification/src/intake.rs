//! The intake of requests to the providers: what is read, in which order, and when a
//! request is refused.

use crate::auth::{check_key, given_key, key_refusal, missing_secret, query_pairs, read_secret};
use crate::errors::{json_error, tells, RefusalView};
use crate::exchange::{
    asks, begins, call_asks_the_provider, calls_ask_both_providers, fetch_both, fetch_llm, leg,
    sends_to, Exchange,
};
use crate::json::{parsed, Json};
use crate::providers::Provider;
use crate::response::Response;
use crate::text::{first_value, first_value_is_first, optional_text};
use crate::validation::{
    accepted_is_valid, is_valid, parse_and_validate_body, request_in, LlmRequest, LlmRequestView,
};
use vstd::prelude::*;
use worker::Url;

verus! {

/// The exchanges that a request takes: one, or one with each provider, Gemini first.
#[derive(Debug)]
pub enum Dispatch {
    Single(Exchange),
    Dual(Exchange, Exchange),
}

/// A request that is about to be sent upstream.
#[derive(Debug)]
pub struct Plan {
    pub request: LlmRequest,
    pub dispatch: Dispatch,
}

/// How far a request has come, and what is known of it: the key that it brings, which
/// the secret is wanted for; then nothing but that the key is right, and the body is
/// wanted; then the request, and the login is wanted; then the login too, and the
/// password is wanted.
#[derive(Debug)]
pub enum Stage {
    Key { given: String },
    Body,
    Login { request: LlmRequest },
    Password { request: LlmRequest, login: String },
}

/// What a stage knows.
pub enum StageView {
    Key { given: Seq<char> },
    Body,
    Login { request: LlmRequestView },
    Password { request: LlmRequestView, login: Seq<char> },
}

impl View for Stage {
    type V = StageView;

    open spec fn view(&self) -> StageView {
        match self {
            Stage::Key { given } => StageView::Key { given: given@ },
            Stage::Body => StageView::Body,
            Stage::Login { request } => StageView::Login { request: request@ },
            Stage::Password { request, login } => StageView::Password {
                request: request@,
                login: login@,
            },
        }
    }
}

/// A request on its way in, waiting for something to be read.
#[derive(Debug)]
pub struct Intake {
    pub request_id: String,
    pub stage: Stage,
}

/// What a request on its way in waits for: a secret, by its name, or its body.
#[derive(Debug)]
pub enum Wanted {
    Secret(&'static str),
    Body,
}

/// What to do with a request.
#[derive(Debug)]
pub enum IntakeAction {
    /// Read what it waits for.
    Read(Intake),
    /// Send it upstream.
    Send(Plan),
    /// Answer it at once.
    Answer(Response),
}

/// What to do with a request.
pub enum ActionView {
    Read(StageView),
    Send { request: LlmRequestView, login: Seq<char>, password: Seq<char> },
    Answer(RefusalView),
}

/// Whether a dispatch asks upstream what a request asks: the provider that it names, or
/// each of the two.
pub open spec fn dispatches(
    dispatch: Dispatch,
    request: LlmRequestView,
    login: Seq<char>,
    password: Seq<char>,
    request_id: Seq<char>,
) -> bool {
    match dispatch {
        Dispatch::Single(exchange) => {
            &&& request.provider != Provider::Both
            &&& begins(exchange, request, login, password, request_id)
        },
        Dispatch::Dual(gemini, chatgpt) => {
            &&& request.provider == Provider::Both
            &&& begins(gemini, leg(request, Provider::Gemini), login, password, request_id)
            &&& begins(chatgpt, leg(request, Provider::ChatGpt), login, password, request_id)
        },
    }
}

/// Whether an action is the one that a view describes, for the request with an id.
pub open spec fn does(action: IntakeAction, view: ActionView, request_id: Seq<char>) -> bool {
    match view {
        ActionView::Read(stage) => {
            &&& action matches IntakeAction::Read(intake)
            &&& intake.stage@ == stage
            &&& intake.request_id@ == request_id
        },
        ActionView::Send { request, login, password } => {
            &&& action matches IntakeAction::Send(plan)
            &&& plan.request@ == request
            &&& dispatches(plan.dispatch, request, login, password, request_id)
        },
        ActionView::Answer(refusal) => {
            &&& action matches IntakeAction::Answer(response)
            &&& tells(response@, refusal, request_id)
        },
    }
}

/// The refusal of a request whose URL cannot be read.
pub open spec fn unreadable_url() -> RefusalView {
    (500, "Failed to parse URL"@, "internal_error"@)
}

/// The refusal of a request that brings no key.
pub open spec fn missing_key() -> RefusalView {
    (400, "Missing required query parameter: csvkey"@, "missing_csvkey"@)
}

/// What to do first with a request that has a query: `None` stands for a URL that could
/// not be read.
pub open spec fn first_action(query: Option<Seq<(Seq<char>, Seq<char>)>>) -> ActionView {
    match query {
        None => ActionView::Answer(unreadable_url()),
        Some(pairs) => match first_value(pairs, "csvkey"@) {
            None => ActionView::Answer(missing_key()),
            Some(given) => ActionView::Read(StageView::Key { given }),
        },
    }
}

/// A request whose URL cannot be read is refused at once, and so is one that brings no
/// key; any other waits for the secret that its first key is compared with.
pub proof fn first_look(pairs: Seq<(Seq<char>, Seq<char>)>)
    ensures
        first_action(None) == ActionView::Answer(
            (500u16, "Failed to parse URL"@, "internal_error"@),
        ),
        (forall|i: int| 0 <= i < pairs.len() ==> (#[trigger] pairs[i]).0 != "csvkey"@)
            ==> first_action(Some(pairs)) == ActionView::Answer(
            (400u16, "Missing required query parameter: csvkey"@, "missing_csvkey"@),
        ),
        forall|i: int|
            0 <= i < pairs.len() && (#[trigger] pairs[i]).0 == "csvkey"@ && (forall|j: int|
                0 <= j < i ==> (#[trigger] pairs[j]).0 != "csvkey"@) ==> first_action(Some(pairs))
                == ActionView::Read(StageView::Key { given: pairs[i].1 }),
{
    first_value_is_first(pairs, "csvkey"@);
}

/// A secret that is missing is told by its name.
pub proof fn missing_secrets_are_named(request: LlmRequestView, login: Seq<char>)
    ensures
        next_action(StageView::Login { request }, None) == ActionView::Answer(
            (
                500u16,
                "Server configuration error: missing "@ + "DATAFORSEO_LOGIN"@,
                "missing_config"@,
            ),
        ),
        next_action(StageView::Password { request, login }, None) == ActionView::Answer(
            (
                500u16,
                "Server configuration error: missing "@ + "DATAFORSEO_PASSWORD"@,
                "missing_config"@,
            ),
        ),
{
}

/// What to do with a request once what it waited for is read: `None` stands for a secret
/// that is not there, or for a body that could not be read.
pub open spec fn next_action(stage: StageView, read: Option<Seq<char>>) -> ActionView {
    match stage {
        StageView::Key { given } => match key_refusal(Some(given), read) {
            Some(refusal) => ActionView::Answer(refusal),
            None => ActionView::Read(StageView::Body),
        },
        StageView::Body => match request_in(read) {
            Err(refusal) => ActionView::Answer(refusal),
            Ok(request) => ActionView::Read(StageView::Login { request }),
        },
        StageView::Login { request } => match read {
            None => ActionView::Answer(missing_secret("DATAFORSEO_LOGIN"@)),
            Some(login) => ActionView::Read(StageView::Password { request, login }),
        },
        StageView::Password { request, login } => match read {
            None => ActionView::Answer(missing_secret("DATAFORSEO_PASSWORD"@)),
            Some(password) => ActionView::Send { request, login, password },
        },
    }
}

/// What to do once one more thing is read, where anything is waited for.
pub open spec fn following(action: ActionView, read: Option<Seq<char>>) -> ActionView {
    match action {
        ActionView::Read(stage) => next_action(stage, read),
        _ => action,
    }
}

/// What is done in the end with a request that has a query and a body, where the secrets
/// are these.
pub open spec fn last_action(
    query: Option<Seq<(Seq<char>, Seq<char>)>>,
    csvkey: Option<Seq<char>>,
    body: Option<Seq<char>>,
    login: Option<Seq<char>>,
    password: Option<Seq<char>>,
) -> ActionView {
    following(
        following(following(following(first_action(query), csvkey), body), login),
        password,
    )
}

/// A request is refused for the first thing that is wrong with it: its URL, its key, its
/// body, the login, the password. It is sent where nothing is wrong, and only there.
pub proof fn first_fault_is_told(
    query: Option<Seq<(Seq<char>, Seq<char>)>>,
    csvkey: Option<Seq<char>>,
    body: Option<Seq<char>>,
    login: Option<Seq<char>>,
    password: Option<Seq<char>>,
)
    ensures
        last_action(query, csvkey, body, login, password) == match query {
            None => ActionView::Answer(unreadable_url()),
            Some(pairs) => match key_refusal(first_value(pairs, "csvkey"@), csvkey) {
                Some(refusal) => ActionView::Answer(refusal),
                None => match request_in(body) {
                    Err(refusal) => ActionView::Answer(refusal),
                    Ok(request) => match (login, password) {
                        (None, _) => ActionView::Answer(missing_secret("DATAFORSEO_LOGIN"@)),
                        (_, None) => ActionView::Answer(missing_secret("DATAFORSEO_PASSWORD"@)),
                        (Some(login), Some(password)) => ActionView::Send {
                            request,
                            login,
                            password,
                        },
                    },
                },
            },
        },
{
}

/// The steps come in order: the body is wanted only once the key was the secret, the
/// login only once the body was read into a request, the password only once there was a
/// login, and a request is sent only once there was a password.
pub proof fn steps_come_in_order(stage: StageView, read: Option<Seq<char>>)
    ensures
        match next_action(stage, read) {
            ActionView::Read(StageView::Key { .. }) => false,
            ActionView::Read(StageView::Body) => stage matches StageView::Key { given } && read
                == Some(given),
            ActionView::Read(StageView::Login { request }) => stage is Body && request_in(read)
                == Ok::<_, RefusalView>(request),
            ActionView::Read(StageView::Password { request, login }) => stage
                == (StageView::Login { request }) && read == Some(login),
            ActionView::Send { request, login, password } => stage == (StageView::Password {
                request,
                login,
            }) && read == Some(password),
            ActionView::Answer(_) => true,
        },
{
}

/// What is sent is a valid request that brought the secret for its key.
pub proof fn only_the_valid_is_sent(
    query: Option<Seq<(Seq<char>, Seq<char>)>>,
    csvkey: Option<Seq<char>>,
    body: Option<Seq<char>>,
    login: Option<Seq<char>>,
    password: Option<Seq<char>>,
)
    ensures
        last_action(query, csvkey, body, login, password) matches ActionView::Send {
            request,
            login: _,
            password: _,
        } ==> {
            &&& is_valid(request)
            &&& query matches Some(pairs)
            &&& csvkey is Some
            &&& first_value(pairs, "csvkey"@) == csvkey
        },
{
    if let Some(text) = body {
        if let Some(json) = parsed(text) {
            accepted_is_valid(json);
        }
    }
}

/// What is dispatched asks what the request asks, of the provider that it names or of
/// each of the two, at their endpoints and under the login and the password.
pub proof fn dispatch_asks_for_the_caller(
    dispatch: Dispatch,
    request: LlmRequestView,
    login: Seq<char>,
    password: Seq<char>,
    request_id: Seq<char>,
)
    requires
        dispatches(dispatch, request, login, password, request_id),
    ensures
        ({
            let gemini_url =
                "https://api.dataforseo.com/v3/ai_optimization/gemini/llm_scraper/live/advanced"@;
            let chatgpt_url =
                "https://api.dataforseo.com/v3/ai_optimization/chat_gpt/llm_scraper/live/advanced"@;
            match request.provider {
                Provider::Gemini => dispatch matches Dispatch::Single(exchange) && exists|task: Json|
                    asks(task, request, false, request_id) && sends_to(
                        exchange,
                        gemini_url,
                        task,
                        login,
                        password,
                    ),
                Provider::ChatGpt => dispatch matches Dispatch::Single(exchange) && exists|
                    task: Json,
                |
                    asks(task, request, request.force_web_search, request_id) && sends_to(
                        exchange,
                        chatgpt_url,
                        task,
                        login,
                        password,
                    ),
                Provider::Both => dispatch matches Dispatch::Dual(gemini, chatgpt) && (exists|
                    task: Json,
                |
                    asks(task, request, false, request_id) && sends_to(
                        gemini,
                        gemini_url,
                        task,
                        login,
                        password,
                    )) && (exists|task: Json|
                    asks(task, request, request.force_web_search, request_id) && sends_to(
                        chatgpt,
                        chatgpt_url,
                        task,
                        login,
                        password,
                    )),
            }
        }),
{
    match dispatch {
        Dispatch::Single(exchange) => {
            call_asks_the_provider(exchange, request, login, password, request_id);
        },
        Dispatch::Dual(gemini, chatgpt) => {
            calls_ask_both_providers(gemini, chatgpt, request, login, password, request_id);
        },
    }
}

/// Begins the exchanges that ask upstream what a request asks.
fn make_plan(request: LlmRequest, login: &str, password: &str, request_id: &str) -> (plan: Plan)
    ensures
        plan.request@ == request@,
        dispatches(plan.dispatch, request@, login@, password@, request_id@),
{
    let dispatch = match request.provider {
        Provider::Both => {
            let (gemini, chatgpt) = fetch_both(&request, login, password, request_id);
            Dispatch::Dual(gemini, chatgpt)
        },
        _ => Dispatch::Single(fetch_llm(&request, login, password, request_id)),
    };
    Plan { request, dispatch }
}

/// The query of a URL, where it could be read.
pub open spec fn query_of(url: Option<&Url>) -> Option<Seq<(Seq<char>, Seq<char>)>> {
    match url {
        None => None,
        Some(url) => Some(query_pairs(*url)),
    }
}

impl Intake {
    /// Takes a request in. `None` stands for a URL that could not be read.
    pub fn begin(url: Option<&Url>, request_id: &str) -> (action: IntakeAction)
        ensures
            does(action, first_action(query_of(url)), request_id@),
    {
        match url {
            None => IntakeAction::Answer(
                json_error(500, "Failed to parse URL", "internal_error", request_id),
            ),
            Some(url) => match given_key(url) {
                None => IntakeAction::Answer(
                    json_error(
                        400,
                        "Missing required query parameter: csvkey",
                        "missing_csvkey",
                        request_id,
                    ),
                ),
                Some(given) => IntakeAction::Read(
                    Intake { request_id: request_id.to_string(), stage: Stage::Key { given } },
                ),
            },
        }
    }

    /// Tells what the request waits for.
    pub fn wanted(&self) -> (wanted: Wanted)
        ensures
            match self.stage {
                Stage::Key { .. } => wanted matches Wanted::Secret(name) && name@ == "CSVKEY"@,
                Stage::Body => wanted is Body,
                Stage::Login { .. } => wanted matches Wanted::Secret(name) && name@
                    == "DATAFORSEO_LOGIN"@,
                Stage::Password { .. } => wanted matches Wanted::Secret(name) && name@
                    == "DATAFORSEO_PASSWORD"@,
            },
    {
        match &self.stage {
            Stage::Key { .. } => Wanted::Secret("CSVKEY"),
            Stage::Body => Wanted::Body,
            Stage::Login { .. } => Wanted::Secret("DATAFORSEO_LOGIN"),
            Stage::Password { .. } => Wanted::Secret("DATAFORSEO_PASSWORD"),
        }
    }

    /// Decides what to do once what the request waited for is read. `None` stands for a
    /// secret that is not there, or for a body that could not be read.
    pub fn next(self, read: Option<String>) -> (action: IntakeAction)
        ensures
            does(action, next_action(self.stage@, optional_text(read)), self.request_id@),
    {
        let request_id = self.request_id;
        match self.stage {
            Stage::Key { given } => match check_key(
                Some(given.as_str()),
                read,
                request_id.as_str(),
            ) {
                Err(response) => IntakeAction::Answer(response),
                Ok(_) => IntakeAction::Read(Intake { request_id, stage: Stage::Body }),
            },
            Stage::Body => {
                let body = match &read {
                    Some(text) => Some(text.as_str()),
                    None => None,
                };
                match parse_and_validate_body(body, request_id.as_str()) {
                    Err(response) => IntakeAction::Answer(response),
                    Ok(request) => IntakeAction::Read(
                        Intake { request_id, stage: Stage::Login { request } },
                    ),
                }
            },
            Stage::Login { request } => match read_secret(
                read,
                "DATAFORSEO_LOGIN",
                request_id.as_str(),
            ) {
                Err(response) => IntakeAction::Answer(response),
                Ok(login) => IntakeAction::Read(
                    Intake { request_id, stage: Stage::Password { request, login } },
                ),
            },
            Stage::Password { request, login } => match read_secret(
                read,
                "DATAFORSEO_PASSWORD",
                request_id.as_str(),
            ) {
                Err(response) => IntakeAction::Answer(response),
                Ok(password) => IntakeAction::Send(
                    make_plan(request, login.as_str(), password.as_str(), request_id.as_str()),
                ),
            },
        }
    }
}

} // verus!
