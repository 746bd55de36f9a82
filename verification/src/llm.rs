//! Answers to requests, and what goes to the log.

use crate::dataforseo::{envelope_json, envelope_status, fits_envelope, ProviderOutcome};
use crate::exchange::{join_outcomes, FetchFailure, FetchResult};
use crate::json::{reads_back, rendered, Json};
use crate::metadata::{
    attach_metadata_headers, metadata_headers, metadata_in, tells_metadata,
};
use crate::providers::{name_names_provider, Provider};
use crate::record::{
    integer_alone_is_read, member_views, read_integer, read_record, record_is_read, record_text, write_record, MemberView, Scalar,
};
use crate::response::{
    header_names_differ, json_headers, push_header, HeaderView, Response, ResponseView,
};
use crate::text::{
    bool_str, bool_text, decimal, decimal_text, first_value, first_value_append, optional_text,
    signed_decimal, signed_decimal_text,
};
use crate::truncation::byte_len;
use crate::validation::{LlmRequest, LlmRequestView, Location, LocationView};
use vstd::prelude::*;
use vstd::utf8::encode_utf8;

verus! {

/// A location as a log line gives it.
pub open spec fn location_text(location: LocationView) -> Seq<char> {
    match location {
        LocationView::Code(code) => signed_decimal_text(code as int),
        LocationView::Name(name) => name,
    }
}

/// What a request leaves in the log.
pub open spec fn log_members(
    request_id: Seq<char>,
    request: LlmRequestView,
    duration_ms: u64,
    status: u16,
    dfs_status: Option<i64>,
    retried: bool,
) -> Seq<MemberView> {
    seq![
        ("req_id"@, Json::Str(request_id)),
        ("provider"@, Json::Str(request.provider.name_text())),
        ("keyword_len"@, Json::Int(byte_len(request.keyword) as int)),
        ("location"@, Json::Str(location_text(request.location))),
        ("duration_ms"@, Json::Int(duration_ms as int)),
        ("status"@, Json::Int(status as int)),
        (
            "dfs_status"@,
            match dfs_status {
                Some(status) => Json::Int(status as int),
                None => Json::Null,
            },
        ),
        ("retried"@, Json::Bool(retried)),
    ]
}

/// The line that a request leaves in the log.
pub open spec fn log_text(
    request_id: Seq<char>,
    request: LlmRequestView,
    duration_ms: u64,
    status: u16,
    dfs_status: Option<i64>,
    retried: bool,
) -> Seq<char> {
    record_text(log_members(request_id, request, duration_ms, status, dfs_status, retried))
}

/// A log line is a JSON object, and reading it tells whose request it belongs to and
/// what became of it.
pub proof fn log_line_is_json(
    request_id: Seq<char>,
    request: LlmRequestView,
    duration_ms: u64,
    status: u16,
    dfs_status: Option<i64>,
    retried: bool,
)
    ensures
        read_record(log_text(request_id, request, duration_ms, status, dfs_status, retried))
            == Some(log_members(request_id, request, duration_ms, status, dfs_status, retried)),
{
    record_is_read(log_members(request_id, request, duration_ms, status, dfs_status, retried));
}

/// Whether reading a line gives eight members: the request's id, the provider's name, the
/// bytes of the keyword, the location as a text, the duration, the status, the task's
/// status or null, and whether there was a second attempt.
pub open spec fn logs(
    line: Seq<char>,
    request_id: Seq<char>,
    request: LlmRequestView,
    duration_ms: u64,
    status: u16,
    dfs_status: Option<i64>,
    retried: bool,
) -> bool {
    &&& read_record(line) matches Some(members)
    &&& members.len() == 8
    &&& members[0] == ("req_id"@, Json::Str(request_id))
    &&& members[1].0 == "provider"@
    &&& members[1].1 matches Json::Str(name)
    &&& Provider::named(name) == Some(request.provider)
    &&& members[2] == ("keyword_len"@, Json::Int(encode_utf8(request.keyword).len() as int))
    &&& members[3].0 == "location"@
    &&& members[3].1 matches Json::Str(place)
    &&& match request.location {
        LocationView::Code(code) => read_integer(place) == Some(
            (code as int, Seq::<char>::empty()),
        ),
        LocationView::Name(name) => place == name,
    }
    &&& members[4] == ("duration_ms"@, Json::Int(duration_ms as int))
    &&& members[5] == ("status"@, Json::Int(status as int))
    &&& members[6].0 == "dfs_status"@
    &&& dfs_status matches Some(n) ==> members[6].1 == Json::Int(n as int)
    &&& dfs_status is None ==> members[6].1 is Null
    &&& members[7] == ("retried"@, Json::Bool(retried))
}

/// Reading a log line tells whose request it belongs to and what became of it.
pub proof fn log_line_tells(
    request_id: Seq<char>,
    request: LlmRequestView,
    duration_ms: u64,
    status: u16,
    dfs_status: Option<i64>,
    retried: bool,
)
    ensures
        logs(
            log_text(request_id, request, duration_ms, status, dfs_status, retried),
            request_id,
            request,
            duration_ms,
            status,
            dfs_status,
            retried,
        ),
{
    log_line_is_json(request_id, request, duration_ms, status, dfs_status, retried);
    name_names_provider(request.provider, request.provider.name_text());
    if let LocationView::Code(code) = request.location {
        integer_alone_is_read(code as int);
    }
}

/// Writes the line that a request leaves in the log.
pub fn log_line(
    request_id: &str,
    request: &LlmRequest,
    duration_ms: u64,
    status: u16,
    dfs_status: Option<i64>,
    retried: bool,
) -> (line: String)
    ensures
        line@ == log_text(request_id@, request@, duration_ms, status, dfs_status, retried),
        logs(line@, request_id@, request@, duration_ms, status, dfs_status, retried),
{
    proof {
        log_line_tells(request_id@, request@, duration_ms, status, dfs_status, retried);
    }
    let location = match &request.location {
        Location::Code(code) => signed_decimal(*code),
        Location::Name(name) => name.clone(),
    };
    let task_status = match dfs_status {
        Some(status) => Scalar::Signed(status),
        None => Scalar::Null,
    };
    let keyword_len = request.keyword.as_str().as_bytes().len();
    let mut members: Vec<(&'static str, Scalar)> = Vec::new();
    members.push(("req_id", Scalar::Text(request_id.to_string())));
    members.push(("provider", Scalar::Text(request.provider.name().to_string())));
    members.push(("keyword_len", Scalar::Unsigned(keyword_len as u64)));
    members.push(("location", Scalar::Text(location)));
    members.push(("duration_ms", Scalar::Unsigned(duration_ms)));
    members.push(("status", Scalar::Unsigned(status as u64)));
    members.push(("dfs_status", task_status));
    members.push(("retried", Scalar::Bool(retried)));
    assert(member_views(members@) =~= log_members(
        request_id@,
        request@,
        duration_ms,
        status,
        dfs_status,
        retried,
    ));
    write_record(&members)
}

/// Answers a request to a single provider, and says what goes to the log: an answer
/// from upstream is passed on as it is, a failure is answered as it stands and leaves
/// nothing in the log.
pub fn finish_single(
    request: &LlmRequest,
    result: Result<FetchResult, FetchFailure>,
    duration: u64,
    request_id: &str,
) -> (answer: (Response, Option<String>))
    ensures
        match result {
            Ok(success) => {
                &&& answer.0@ == (ResponseView {
                    status: 200,
                    headers: metadata_headers(
                        metadata_in(success.body@),
                        request_id@,
                        request.provider,
                        duration,
                        success.retried,
                    ),
                    body: success.body@,
                })
                &&& optional_text(answer.1) == Some(
                    log_text(
                        request_id@,
                        request@,
                        duration,
                        200,
                        metadata_in(success.body@).dfs_status,
                        success.retried,
                    ),
                )
            },
            Err(failure) => answer.0 == failure.response && answer.1 is None,
        },
        result matches Ok(success) ==> (answer.1 matches Some(line) && logs(
            line@,
            request_id@,
            request@,
            duration,
            200,
            metadata_in(success.body@).dfs_status,
            success.retried,
        )),
        result matches Ok(success) ==> tells_metadata(
            answer.0@,
            success.body@,
            request_id@,
            request.provider,
            duration,
            success.retried,
        ),
{
    match result {
        Ok(success) => {
            let retried = success.retried;
            let (response, extracted) = attach_metadata_headers(
                success.body,
                request_id,
                &request.provider,
                duration,
                retried,
            );
            let line = log_line(
                request_id,
                request,
                duration,
                response.status,
                extracted.dfs_status,
                retried,
            );
            (response, Some(line))
        },
        Err(failure) => (failure.response, None),
    }
}

/// The headers of an answer to a request to both providers.
pub open spec fn dual_headers(request_id: Seq<char>, duration: u64, retried: bool) -> Seq<
    HeaderView,
> {
    json_headers(request_id) + seq![
        ("X-RustyLLM-Provider"@, "both"@),
        ("X-RustyLLM-Duration-Ms"@, decimal_text(duration as nat)),
        ("X-RustyLLM-Retried"@, bool_text(retried)),
    ]
}

/// The headers of an answer to a request to both providers say whose request it
/// answers, that both were asked, how long that took, and whether either took a second
/// attempt.
pub proof fn dual_headers_tell(request_id: Seq<char>, duration: u64, retried: bool)
    ensures
        ({
            let headers = dual_headers(request_id, duration, retried);
            &&& first_value(headers, "Content-Type"@) == Some("application/json"@)
            &&& first_value(headers, "X-RustyLLM-Request-Id"@) == Some(request_id)
            &&& first_value(headers, "X-RustyLLM-Provider"@) == Some("both"@)
            &&& first_value(headers, "X-RustyLLM-Duration-Ms"@) == Some(
                decimal_text(duration as nat),
            )
            &&& first_value(headers, "X-RustyLLM-Retried"@) == Some(bool_text(retried))
            &&& headers.len() == 5
        }),
{
    header_names_differ();
    let front = json_headers(request_id);
    let back = seq![
        ("X-RustyLLM-Provider"@, "both"@),
        ("X-RustyLLM-Duration-Ms"@, decimal_text(duration as nat)),
        ("X-RustyLLM-Retried"@, bool_text(retried)),
    ];
    first_value_append(front, back, "Content-Type"@);
    first_value_append(front, back, "X-RustyLLM-Request-Id"@);
    first_value_append(front, back, "X-RustyLLM-Provider"@);
    first_value_append(front, back, "X-RustyLLM-Duration-Ms"@);
    first_value_append(front, back, "X-RustyLLM-Retried"@);
    reveal_with_fuel(first_value, 4);
}

/// Answers a request to both providers, and says what goes to the log.
pub fn finish_dual(
    request: &LlmRequest,
    gemini: ProviderOutcome,
    chatgpt: ProviderOutcome,
    total_ms: u64,
    duration: u64,
    request_id: &str,
) -> (answer: (Response, String))
    ensures
        answer.0@ == (ResponseView {
            status: envelope_status(gemini@, chatgpt@),
            headers: dual_headers(request_id@, duration, gemini.retried || chatgpt.retried),
            body: rendered(envelope_json(gemini@, chatgpt@, request_id@, total_ms)),
        }),
        fits_envelope(gemini@) && fits_envelope(chatgpt@) ==> reads_back(
            answer.0.body@,
            envelope_json(gemini@, chatgpt@, request_id@, total_ms),
        ),
        answer.1@ == log_text(
            request_id@,
            request@,
            duration,
            envelope_status(gemini@, chatgpt@),
            None,
            gemini.retried || chatgpt.retried,
        ),
        logs(
            answer.1@,
            request_id@,
            request@,
            duration,
            answer.0.status,
            None,
            gemini.retried || chatgpt.retried,
        ),
        answer.0.status == 200 <==> gemini.status@ == "ok"@ && chatgpt.status@ == "ok"@,
        answer.0.status == 502 <==> gemini.status@ != "ok"@ && chatgpt.status@ != "ok"@,
        answer.0.status == 200 || answer.0.status == 207 || answer.0.status == 502,
        first_value(answer.0@.headers, "X-RustyLLM-Request-Id"@) == Some(request_id@),
        first_value(answer.0@.headers, "X-RustyLLM-Provider"@) == Some("both"@),
        first_value(answer.0@.headers, "X-RustyLLM-Duration-Ms"@) == Some(
            decimal_text(duration as nat),
        ),
        first_value(answer.0@.headers, "X-RustyLLM-Retried"@) == Some(
            if gemini.retried || chatgpt.retried {
                "true"@
            } else {
                "false"@
            },
        ),
{
    proof {
        dual_headers_tell(request_id@, duration, gemini.retried || chatgpt.retried);
    }
    let (joined, retried) = join_outcomes(gemini, chatgpt, request_id, total_ms);
    let mut response = joined;
    push_header(&mut response.headers, "X-RustyLLM-Provider", "both");
    push_header(&mut response.headers, "X-RustyLLM-Duration-Ms", decimal(duration).as_str());
    push_header(&mut response.headers, "X-RustyLLM-Retried", bool_str(retried));
    assert(response@.headers =~= dual_headers(request_id@, duration, retried));
    let line = log_line(request_id, request, duration, response.status, None, retried);
    (response, line)
}

} // verus!
