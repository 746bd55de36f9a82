//! Responses: what a caller is answered.

use crate::text::first_value;
use vstd::prelude::*;

verus! {

/// An HTTP response. Headers are set in the order of the list.
#[derive(Debug)]
pub struct Response {
    pub status: u16,
    pub headers: Vec<(String, String)>,
    pub body: String,
}

/// A header: its name, and its value.
pub type HeaderView = (Seq<char>, Seq<char>);

/// What a response says.
pub struct ResponseView {
    pub status: u16,
    pub headers: Seq<HeaderView>,
    pub body: Seq<char>,
}

/// What a list of headers says.
pub open spec fn header_views(headers: Seq<(String, String)>) -> Seq<HeaderView> {
    headers.map_values(|header: (String, String)| (header.0@, header.1@))
}

impl View for Response {
    type V = ResponseView;

    open spec fn view(&self) -> ResponseView {
        ResponseView {
            status: self.status,
            headers: header_views(self.headers@),
            body: self.body@,
        }
    }
}

/// A response says its own status, headers and body.
pub proof fn response_says(response: Response, i: int)
    ensures
        response@.status == response.status,
        response@.body == response.body@,
        response@.headers.len() == response.headers@.len(),
        0 <= i < response.headers@.len() ==> response@.headers[i].0 == response.headers@[i].0@
            && response@.headers[i].1 == response.headers@[i].1@,
{
}

/// Puts a header behind the others.
pub(crate) fn push_header(headers: &mut Vec<(String, String)>, name: &str, value: &str)
    ensures
        header_views(final(headers)@) == header_views(old(headers)@).push((name@, value@)),
{
    headers.push((name.to_string(), value.to_string()));
    assert(header_views(headers@) =~= header_views(old(headers)@).push((name@, value@)));
}

/// The headers of a JSON response that belongs to a request.
pub open spec fn json_headers(request_id: Seq<char>) -> Seq<HeaderView> {
    seq![
        ("Content-Type"@, "application/json"@),
        ("X-RustyLLM-Request-Id"@, request_id),
    ]
}

/// Makes the headers of a JSON response that belongs to a request.
pub(crate) fn make_json_headers(request_id: &str) -> (headers: Vec<(String, String)>)
    ensures
        header_views(headers@) == json_headers(request_id@),
{
    let mut headers: Vec<(String, String)> = Vec::new();
    push_header(&mut headers, "Content-Type", "application/json");
    push_header(&mut headers, "X-RustyLLM-Request-Id", request_id);
    assert(header_views(headers@) =~= json_headers(request_id@));
    headers
}

/// The names of headers differ, in their length or in a letter.
pub(crate) proof fn header_names_differ()
    ensures
        "Content-Type"@.len() == 12,
        "Content-Length"@.len() == 14,
        "X-RustyLLM-Model"@.len() == 16,
        "X-RustyLLM-Retried"@.len() == 18,
        "X-RustyLLM-Provider"@.len() == 19,
        "X-RustyLLM-Request-Id"@.len() == 21,
        "X-RustyLLM-DFS-Status"@.len() == 21,
        "X-RustyLLM-Duration-Ms"@.len() == 22,
        "X-RustyLLM-DFS-Cost-Cents"@.len() == 25,
        "X-RustyLLM-Request-Id"@ != "X-RustyLLM-DFS-Status"@,
{
    reveal_strlit("Content-Type");
    reveal_strlit("Content-Length");
    reveal_strlit("X-RustyLLM-Model");
    reveal_strlit("X-RustyLLM-Retried");
    reveal_strlit("X-RustyLLM-Provider");
    reveal_strlit("X-RustyLLM-Request-Id");
    reveal_strlit("X-RustyLLM-DFS-Status");
    reveal_strlit("X-RustyLLM-Duration-Ms");
    reveal_strlit("X-RustyLLM-DFS-Cost-Cents");
    assert("X-RustyLLM-Request-Id"@[11] == 'R');
    assert("X-RustyLLM-DFS-Status"@[11] == 'D');
}

/// A JSON response that belongs to a request says so: its type, and the request's id.
pub proof fn json_headers_tell(request_id: Seq<char>)
    ensures
        first_value(json_headers(request_id), "Content-Type"@) == Some("application/json"@),
        first_value(json_headers(request_id), "X-RustyLLM-Request-Id"@) == Some(request_id),
        json_headers(request_id).len() == 2,
{
    header_names_differ();
    reveal_with_fuel(first_value, 3);
}

} // verus!
