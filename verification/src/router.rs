//! Routing: which handler a request goes to.

use crate::errors::{errors_name_the_request, json_error, tells, RefusalView};
use crate::json::{member, parsed, Json};
use crate::response::Response;
use crate::text::same;
use vstd::prelude::*;

verus! {

/// The methods that routing tells apart.
#[derive(Debug, Clone, Copy, PartialEq, Eq, Structural)]
pub enum Method {
    Get,
    Head,
    Post,
    Other,
}

/// Where a request goes.
#[derive(Debug)]
pub enum Route {
    /// To the health check.
    Health,
    /// To the health check without a body.
    HealthHead,
    /// To the providers.
    Llm,
    /// Nowhere: it is answered at once.
    Refused(Response),
}

/// The refusal of a method that a path does not take.
pub open spec fn method_not_allowed() -> RefusalView {
    (405, "Method not allowed"@, "method_not_allowed"@)
}

/// The refusal of a path that leads nowhere.
pub open spec fn not_found() -> RefusalView {
    (404, "Not found"@, "not_found"@)
}

/// Whether `route` is where requests with a method and a path go.
pub open spec fn goes_to(method: Method, path: Seq<char>, route: Route) -> bool {
    if path == "/v1/health"@ {
        match method {
            Method::Get => route == Route::Health,
            Method::Head => route == Route::HealthHead,
            _ => route matches Route::Refused(response) && tells(
                response@,
                method_not_allowed(),
                ""@,
            ),
        }
    } else if path == "/v1/llm"@ {
        match method {
            Method::Post => route == Route::Llm,
            _ => route matches Route::Refused(response) && tells(
                response@,
                method_not_allowed(),
                ""@,
            ),
        }
    } else {
        route matches Route::Refused(response) && tells(response@, not_found(), ""@)
    }
}

/// The health check is at `/v1/health`, for GET and HEAD, and the providers at `/v1/llm`,
/// for POST; any other method there is refused as such, and any other path as not found.
pub proof fn routes(method: Method, path: Seq<char>, route: Route)
    requires
        goes_to(method, path, route),
    ensures
        route is Health <==> method == Method::Get && path == "/v1/health"@,
        route is HealthHead <==> method == Method::Head && path == "/v1/health"@,
        route is Llm <==> method == Method::Post && path == "/v1/llm"@,
        route matches Route::Refused(response) ==> {
            let known = path == "/v1/health"@ || path == "/v1/llm"@;
            &&& response.status == if known {
                405u16
            } else {
                404
            }
            &&& parsed(response.body@) matches Some(body)
            &&& member(body, "code"@) == Json::Str(
                if known {
                    "method_not_allowed"@
                } else {
                    "not_found"@
                },
            )
            &&& member(body, "error"@) == Json::Str(
                if known {
                    "Method not allowed"@
                } else {
                    "Not found"@
                },
            )
        },
{
    reveal_strlit("/v1/health");
    reveal_strlit("/v1/llm");
    assert("/v1/health"@.len() != "/v1/llm"@.len());
    if let Route::Refused(response) = route {
        if path == "/v1/health"@ || path == "/v1/llm"@ {
            errors_name_the_request(response@, method_not_allowed(), ""@);
        } else {
            errors_name_the_request(response@, not_found(), ""@);
        }
    }
}

/// Finds out where a request goes.
pub fn route(method: Method, path: &str) -> (result: Route)
    ensures
        goes_to(method, path@, result),
{
    let health = same(path, "/v1/health");
    let llm = same(path, "/v1/llm");
    proof {
        reveal_strlit("/v1/health");
        reveal_strlit("/v1/llm");
        assert("/v1/health"@.len() != "/v1/llm"@.len());
    }
    match method {
        Method::Get if health => Route::Health,
        Method::Head if health => Route::HealthHead,
        Method::Post if llm => Route::Llm,
        _ => if health || llm {
            Route::Refused(json_error(405, "Method not allowed", "method_not_allowed", ""))
        } else {
            Route::Refused(json_error(404, "Not found", "not_found", ""))
        },
    }
}

} // verus!
