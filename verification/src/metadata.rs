//! What a successful answer from upstream says of itself, and the headers that pass it on.

use crate::cents::{cents, cents_of_double, cents_of_integer, cents_of_nearest_double};
use crate::json::{
    as_double, as_i64, as_str, at_index, at_key, contents, element, i64_of, member, parse, parsed,
    string_of, Json,
};
use crate::providers::Provider;
use crate::response::{
    header_names_differ, header_views, push_header, HeaderView, Response, ResponseView,
};
use crate::text::{
    bool_str, bool_text, decimal, decimal_text, first_value, first_value_push, optional_text,
    signed_decimal, signed_decimal_text,
};
use serde_json::Value;
use vstd::prelude::*;

verus! {

/// What is kept of an answer's metadata once its headers are set.
pub struct ExtractedMetadata {
    pub dfs_status: Option<i64>,
}

/// The metadata of an answer: the model that gave it, its cost in cents, and the
/// status of its task.
pub struct MetadataView {
    pub model: Option<Seq<char>>,
    pub cost_cents: Option<u64>,
    pub dfs_status: Option<i64>,
}

/// The first task of an answer.
pub open spec fn first_task(answer: Json) -> Json {
    element(member(answer, "tasks"@), 0)
}

/// The model named in the first result of the first task.
pub open spec fn model_of(answer: Json) -> Option<Seq<char>> {
    string_of(member(element(member(first_task(answer), "result"@), 0), "model"@))
}

/// A number of dollars in cents.
pub open spec fn cents_of(cost: Json) -> Option<u64> {
    match cost {
        Json::Int(n) => Some(cents_of_integer(n)),
        Json::Float(bits) => Some(cents_of_double(bits)),
        _ => None,
    }
}

/// The metadata of an answer.
pub open spec fn metadata_of(answer: Json) -> MetadataView {
    MetadataView {
        model: model_of(answer),
        cost_cents: cents_of(member(first_task(answer), "cost"@)),
        dfs_status: i64_of(member(first_task(answer), "status_code"@)),
    }
}

/// The metadata in the text of an answer: none where it is not JSON.
pub open spec fn metadata_in(text: Seq<char>) -> MetadataView {
    match parsed(text) {
        Some(answer) => metadata_of(answer),
        None => MetadataView { model: None, cost_cents: None, dfs_status: None },
    }
}

/// Whether an answer holds a task, first in the list of its tasks.
pub open spec fn holds_task(answer: Json, task: Map<Seq<char>, Json>) -> bool {
    &&& answer matches Json::Object(members)
    &&& members.contains_key("tasks"@)
    &&& members["tasks"@] matches Json::Array(tasks)
    &&& tasks.len() > 0
    &&& tasks[0] == Json::Object(task)
}

/// Whether a task names a model, in the first of its results.
pub open spec fn names_model(task: Map<Seq<char>, Json>, name: Seq<char>) -> bool {
    &&& task.contains_key("result"@)
    &&& task["result"@] matches Json::Array(results)
    &&& results.len() > 0
    &&& results[0] matches Json::Object(result)
    &&& result.contains_key("model"@)
    &&& result["model"@] == Json::Str(name)
}

/// Whether a number of cents is the cost that an object holds, in dollars.
pub open spec fn costs(members: Map<Seq<char>, Json>, cents: u64) -> bool {
    &&& members.contains_key("cost"@)
    &&& match members["cost"@] {
        Json::Int(dollars) => cents == cents_of_integer(dollars),
        Json::Float(bits) => cents == cents_of_double(bits),
        _ => false,
    }
}

/// The metadata of an answer is that of its first task: the model that it names, its own
/// cost, and its own status, each where it has one, whatever else the answer holds.
pub proof fn metadata_is_the_tasks(
    answer: Json,
    task: Map<Seq<char>, Json>,
    name: Seq<char>,
    cents: u64,
    status: i64,
)
    requires
        holds_task(answer, task),
    ensures
        metadata_of(answer).model == Some(name) <==> names_model(task, name),
        metadata_of(answer).cost_cents == Some(cents) <==> costs(task, cents),
        metadata_of(answer).dfs_status == Some(status) <==> task.contains_key("status_code"@)
            && task["status_code"@] == Json::Int(status as int),
{
    assert(first_task(answer) == Json::Object(task));
}

/// Two answers with the same first task have the same metadata.
pub proof fn same_task_same_metadata(a: Json, b: Json, task: Map<Seq<char>, Json>)
    requires
        holds_task(a, task),
        holds_task(b, task),
    ensures
        metadata_of(a) == metadata_of(b),
{
    assert(first_task(a) == first_task(b));
}

/// An answer without a first task has no metadata.
pub proof fn no_task_no_metadata(answer: Json)
    requires
        forall|task: Map<Seq<char>, Json>| !holds_task(answer, task),
    ensures
        metadata_of(answer).model is None,
        metadata_of(answer).cost_cents is None,
        metadata_of(answer).dfs_status is None,
{
    if let Json::Object(task) = first_task(answer) {
        assert(holds_task(answer, task));
    }
}

/// The metadata in a text is that of the answer that it spells, and none where it spells
/// none.
pub proof fn metadata_of_a_text(text: Seq<char>)
    ensures
        match parsed(text) {
            Some(answer) => metadata_in(text) == metadata_of(answer),
            None => metadata_in(text).model is None && metadata_in(text).cost_cents is None
                && metadata_in(text).dfs_status is None,
        },
{
}

/// Reads the model that gave an answer.
pub(crate) fn read_model(answer: &Value) -> (model: Option<String>)
    ensures
        optional_text(model) == model_of(contents(*answer)),
{
    let task = at_index(at_key(answer, "tasks"), 0);
    match as_str(at_key(at_index(at_key(task, "result"), 0), "model")) {
        Some(model) => Some(model.to_string()),
        None => None,
    }
}

/// Reads a number of dollars in cents.
pub(crate) fn read_cents(cost: &Value) -> (result: Option<u64>)
    ensures
        result == cents_of(contents(*cost)),
{
    match as_double(cost) {
        Some(bits) => {
            proof {
                if let Json::Int(n) = contents(*cost) {
                    cents_of_nearest_double(bits, n);
                }
            }
            Some(cents(bits))
        },
        None => None,
    }
}

/// Reads the metadata of an answer: model, cost in cents, and status.
pub fn read_metadata(answer: &Value) -> (result: (Option<String>, Option<u64>, Option<i64>))
    ensures
        optional_text(result.0) == metadata_of(contents(*answer)).model,
        result.1 == metadata_of(contents(*answer)).cost_cents,
        result.2 == metadata_of(contents(*answer)).dfs_status,
{
    let model = read_model(answer);
    let task = at_index(at_key(answer, "tasks"), 0);
    (model, read_cents(at_key(task, "cost")), as_i64(at_key(task, "status_code")))
}

/// Reads the metadata in the text of an answer: model, cost in cents, and status.
pub fn extract_metadata(body: &str) -> (result: (Option<String>, Option<u64>, Option<i64>))
    ensures
        optional_text(result.0) == metadata_in(body@).model,
        result.1 == metadata_in(body@).cost_cents,
        result.2 == metadata_in(body@).dfs_status,
{
    match parse(body) {
        Ok(answer) => read_metadata(&answer),
        Err(_) => (None, None, None),
    }
}

/// `headers` with one more, where it has a value.
pub open spec fn with_header(
    headers: Seq<HeaderView>,
    name: Seq<char>,
    value: Option<Seq<char>>,
) -> Seq<HeaderView> {
    match value {
        Some(value) => headers.push((name, value)),
        None => headers,
    }
}

/// An unsigned number in decimal, where there is one.
pub open spec fn optional_decimal(n: Option<u64>) -> Option<Seq<char>> {
    match n {
        Some(n) => Some(decimal_text(n as nat)),
        None => None,
    }
}

/// A signed number in decimal, where there is one.
pub open spec fn optional_signed(n: Option<i64>) -> Option<Seq<char>> {
    match n {
        Some(n) => Some(signed_decimal_text(n as int)),
        None => None,
    }
}

/// The headers of an answer that is passed on.
pub open spec fn metadata_headers(
    metadata: MetadataView,
    request_id: Seq<char>,
    provider: Provider,
    duration: u64,
    retried: bool,
) -> Seq<HeaderView> {
    let start = seq![
        ("Content-Type"@, "application/json"@),
        ("X-RustyLLM-Request-Id"@, request_id),
        ("X-RustyLLM-Provider"@, provider.name_text()),
    ];
    let model = with_header(start, "X-RustyLLM-Model"@, metadata.model);
    let timed = model.push(("X-RustyLLM-Duration-Ms"@, decimal_text(duration as nat)));
    let cost = with_header(
        timed,
        "X-RustyLLM-DFS-Cost-Cents"@,
        optional_decimal(metadata.cost_cents),
    );
    let status = with_header(cost, "X-RustyLLM-DFS-Status"@, optional_signed(metadata.dfs_status));
    status.push(("X-RustyLLM-Retried"@, bool_text(retried)))
}

/// A header that may be there is looked up last.
proof fn first_value_with(
    headers: Seq<HeaderView>,
    name: Seq<char>,
    value: Option<Seq<char>>,
    wanted: Seq<char>,
)
    ensures
        first_value(with_header(headers, name, value), wanted) == match first_value(
            headers,
            wanted,
        ) {
            Some(found) => Some(found),
            None => if name == wanted {
                value
            } else {
                None
            },
        },
{
    if let Some(text) = value {
        first_value_push(headers, (name, text), wanted);
    }
}

/// What stands under a name in the headers of an answer that is passed on, and that
/// nothing stands under any other name.
pub proof fn metadata_header(
    metadata: MetadataView,
    request_id: Seq<char>,
    provider: Provider,
    duration: u64,
    retried: bool,
    wanted: Seq<char>,
)
    ensures
        first_value(metadata_headers(metadata, request_id, provider, duration, retried), wanted)
            == if wanted == "Content-Type"@ {
            Some("application/json"@)
        } else if wanted == "X-RustyLLM-Request-Id"@ {
            Some(request_id)
        } else if wanted == "X-RustyLLM-Provider"@ {
            Some(provider.name_text())
        } else if wanted == "X-RustyLLM-Model"@ {
            metadata.model
        } else if wanted == "X-RustyLLM-Duration-Ms"@ {
            Some(decimal_text(duration as nat))
        } else if wanted == "X-RustyLLM-DFS-Cost-Cents"@ {
            optional_decimal(metadata.cost_cents)
        } else if wanted == "X-RustyLLM-DFS-Status"@ {
            optional_signed(metadata.dfs_status)
        } else if wanted == "X-RustyLLM-Retried"@ {
            Some(bool_text(retried))
        } else {
            None
        },
{
    header_names_differ();
    let start = seq![
        ("Content-Type"@, "application/json"@),
        ("X-RustyLLM-Request-Id"@, request_id),
        ("X-RustyLLM-Provider"@, provider.name_text()),
    ];
    reveal_with_fuel(first_value, 4);
    let model = with_header(start, "X-RustyLLM-Model"@, metadata.model);
    first_value_with(start, "X-RustyLLM-Model"@, metadata.model, wanted);
    let timed = model.push(("X-RustyLLM-Duration-Ms"@, decimal_text(duration as nat)));
    first_value_push(
        model,
        ("X-RustyLLM-Duration-Ms"@, decimal_text(duration as nat)),
        wanted,
    );
    let cents = optional_decimal(metadata.cost_cents);
    let cost = with_header(timed, "X-RustyLLM-DFS-Cost-Cents"@, cents);
    first_value_with(timed, "X-RustyLLM-DFS-Cost-Cents"@, cents, wanted);
    let dfs_status = optional_signed(metadata.dfs_status);
    first_value_with(cost, "X-RustyLLM-DFS-Status"@, dfs_status, wanted);
    first_value_push(
        with_header(cost, "X-RustyLLM-DFS-Status"@, dfs_status),
        ("X-RustyLLM-Retried"@, bool_text(retried)),
        wanted,
    );
}

/// The headers of an answer that is passed on say whose request it answers, who gave
/// it, how long that took and whether it took a second attempt; and the model, the cost
/// and the status, each where the answer tells it.
pub proof fn metadata_headers_tell(
    metadata: MetadataView,
    request_id: Seq<char>,
    provider: Provider,
    duration: u64,
    retried: bool,
)
    ensures
        ({
            let headers = metadata_headers(metadata, request_id, provider, duration, retried);
            &&& first_value(headers, "Content-Type"@) == Some("application/json"@)
            &&& first_value(headers, "X-RustyLLM-Request-Id"@) == Some(request_id)
            &&& first_value(headers, "X-RustyLLM-Provider"@) == Some(provider.name_text())
            &&& first_value(headers, "X-RustyLLM-Model"@) == metadata.model
            &&& first_value(headers, "X-RustyLLM-Duration-Ms"@) == Some(
                decimal_text(duration as nat),
            )
            &&& first_value(headers, "X-RustyLLM-DFS-Cost-Cents"@) == optional_decimal(
                metadata.cost_cents,
            )
            &&& first_value(headers, "X-RustyLLM-DFS-Status"@) == optional_signed(
                metadata.dfs_status,
            )
            &&& first_value(headers, "X-RustyLLM-Retried"@) == Some(bool_text(retried))
        }),
{
    header_names_differ();
    metadata_header(metadata, request_id, provider, duration, retried, "Content-Type"@);
    metadata_header(metadata, request_id, provider, duration, retried, "X-RustyLLM-Request-Id"@);
    metadata_header(metadata, request_id, provider, duration, retried, "X-RustyLLM-Provider"@);
    metadata_header(metadata, request_id, provider, duration, retried, "X-RustyLLM-Model"@);
    metadata_header(metadata, request_id, provider, duration, retried, "X-RustyLLM-Duration-Ms"@);
    metadata_header(
        metadata,
        request_id,
        provider,
        duration,
        retried,
        "X-RustyLLM-DFS-Cost-Cents"@,
    );
    metadata_header(metadata, request_id, provider, duration, retried, "X-RustyLLM-DFS-Status"@);
    metadata_header(metadata, request_id, provider, duration, retried, "X-RustyLLM-Retried"@);
}

/// Whether a response passes an answer on as it is, under headers that say what is known
/// of it.
pub open spec fn tells_metadata(
    response: ResponseView,
    body: Seq<char>,
    request_id: Seq<char>,
    provider: Provider,
    duration: u64,
    retried: bool,
) -> bool {
    &&& response.status == 200
    &&& response.body == body
    &&& first_value(response.headers, "Content-Type"@) == Some("application/json"@)
    &&& first_value(response.headers, "X-RustyLLM-Request-Id"@) == Some(request_id)
    &&& first_value(response.headers, "X-RustyLLM-Provider"@) == Some(provider.name_text())
    &&& first_value(response.headers, "X-RustyLLM-Model"@) == metadata_in(body).model
    &&& first_value(response.headers, "X-RustyLLM-Duration-Ms"@) == Some(
        decimal_text(duration as nat),
    )
    &&& first_value(response.headers, "X-RustyLLM-DFS-Cost-Cents"@) == optional_decimal(
        metadata_in(body).cost_cents,
    )
    &&& first_value(response.headers, "X-RustyLLM-DFS-Status"@) == optional_signed(
        metadata_in(body).dfs_status,
    )
    &&& first_value(response.headers, "X-RustyLLM-Retried"@) == Some(
        if retried {
            "true"@
        } else {
            "false"@
        },
    )
}

/// Passes an answer on as it is, under headers that say what is known of it.
pub fn enrich(
    body: String,
    metadata: (Option<String>, Option<u64>, Option<i64>),
    request_id: &str,
    provider: &Provider,
    duration: u64,
    retried: bool,
) -> (response: Response)
    ensures
        response@ == (ResponseView {
            status: 200,
            headers: metadata_headers(
                MetadataView {
                    model: optional_text(metadata.0),
                    cost_cents: metadata.1,
                    dfs_status: metadata.2,
                },
                request_id@,
                *provider,
                duration,
                retried,
            ),
            body: body@,
        }),
{
    let (model, cost_cents, dfs_status) = metadata;
    let mut headers: Vec<(String, String)> = Vec::new();
    push_header(&mut headers, "Content-Type", "application/json");
    push_header(&mut headers, "X-RustyLLM-Request-Id", request_id);
    push_header(&mut headers, "X-RustyLLM-Provider", provider.name());
    assert(header_views(headers@) =~= seq![
        ("Content-Type"@, "application/json"@),
        ("X-RustyLLM-Request-Id"@, request_id@),
        ("X-RustyLLM-Provider"@, provider.name_text()),
    ]);
    if let Some(model) = &model {
        push_header(&mut headers, "X-RustyLLM-Model", model.as_str());
    }
    push_header(&mut headers, "X-RustyLLM-Duration-Ms", decimal(duration).as_str());
    if let Some(cents) = cost_cents {
        push_header(&mut headers, "X-RustyLLM-DFS-Cost-Cents", decimal(cents).as_str());
    }
    if let Some(status) = dfs_status {
        push_header(&mut headers, "X-RustyLLM-DFS-Status", signed_decimal(status).as_str());
    }
    push_header(&mut headers, "X-RustyLLM-Retried", bool_str(retried));
    Response { status: 200, headers, body }
}

/// Passes an answer on as it is, under headers that say what its text tells.
pub fn attach_metadata_headers(
    body: String,
    request_id: &str,
    provider: &Provider,
    duration: u64,
    retried: bool,
) -> (result: (Response, ExtractedMetadata))
    ensures
        result.0@ == (ResponseView {
            status: 200,
            headers: metadata_headers(
                metadata_in(body@),
                request_id@,
                *provider,
                duration,
                retried,
            ),
            body: body@,
        }),
        result.1.dfs_status == metadata_in(body@).dfs_status,
        tells_metadata(result.0@, body@, request_id@, *provider, duration, retried),
{
    proof {
        metadata_headers_tell(metadata_in(body@), request_id@, *provider, duration, retried);
    }
    let metadata = extract_metadata(body.as_str());
    let dfs_status = metadata.2;
    let response = enrich(body, metadata, request_id, provider, duration, retried);
    (response, ExtractedMetadata { dfs_status })
}

} // verus!
