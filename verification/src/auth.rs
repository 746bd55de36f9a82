//! Authentication, and the secrets that it and the exchange with upstream need.

use crate::errors::{json_error, tells, RefusalView};
use crate::response::Response;
use crate::text::{first_value, first_value_append, optional_str, optional_text, same};
use vstd::prelude::*;
use vstd::string::StringExecFns;
use vstd::utf8::encode_utf8_decode_utf8;
use worker::Url;

verus! {

/// `url::Url`, a URL taken apart.
#[verifier::external_type_specification]
#[verifier::external_body]
pub struct ExUrl(worker::Url);

/// The names and values in the query of a URL, in order.
pub uninterp spec fn query_pairs(url: worker::Url) -> Seq<(Seq<char>, Seq<char>)>;

/// The texts of a list of pairs.
pub open spec fn pair_views(pairs: Seq<(String, String)>) -> Seq<(Seq<char>, Seq<char>)> {
    pairs.map_values(|pair: (String, String)| (pair.0@, pair.1@))
}

/// Calls `Url::query_pairs`, and collects the decoded pairs that it walks through.
#[verifier::external_body]
fn read_query(url: &Url) -> (pairs: Vec<(String, String)>)
    ensures
        pair_views(pairs@) == query_pairs(*url),
{
    url.query_pairs().map(|(name, value)| (name.into_owned(), value.into_owned())).collect()
}

/// Whether two byte strings are equal, in a time that depends on their lengths alone.
pub fn constant_time_eq(a: &[u8], b: &[u8]) -> (result: bool)
    ensures
        result == (a@ == b@),
{
    if a.len() != b.len() {
        return false;
    }
    let mut acc: u8 = 0;
    let mut i: usize = 0;
    assert(a@.take(0) =~= b@.take(0));
    while i < a.len()
        invariant
            i <= a@.len(),
            a@.len() == b@.len(),
            acc == 0 <==> a@.take(i as int) == b@.take(i as int),
        decreases a@.len() - i,
    {
        let x = a[i];
        let y = b[i];
        assert((acc | (x ^ y)) == 0 <==> acc == 0 && x == y) by (bit_vector);
        acc = acc | (x ^ y);
        proof {
            let m = i as int;
            assert(a@.take(m + 1) =~= a@.take(m).push(x));
            assert(b@.take(m + 1) =~= b@.take(m).push(y));
            if a@.take(m + 1) == b@.take(m + 1) {
                assert(a@.take(m + 1)[m] == b@.take(m + 1)[m]);
                assert(a@.take(m) =~= a@.take(m + 1).take(m));
                assert(b@.take(m) =~= b@.take(m + 1).take(m));
            }
        }
        i = i + 1;
    }
    assert(a@.take(i as int) =~= a@);
    assert(b@.take(i as int) =~= b@);
    acc == 0
}

/// Looks up the value of the first pair under `name`.
fn find_value<'a>(pairs: &'a Vec<(String, String)>, name: &str) -> (result: Option<&'a str>)
    ensures
        optional_str(result) == first_value(pair_views(pairs@), name@),
{
    let ghost all = pair_views(pairs@);
    let mut i: usize = 0;
    assert(all.skip(0) =~= all);
    while i < pairs.len()
        invariant
            i <= pairs@.len(),
            all == pair_views(pairs@),
            first_value(all, name@) == first_value(all.skip(i as int), name@),
        decreases pairs@.len() - i,
    {
        assert(all.skip(i as int).drop_first() =~= all.skip(i + 1));
        assert(all.skip(i as int)[0] == all[i as int]);
        if same(pairs[i].0.as_str(), name) {
            return Some(pairs[i].1.as_str());
        }
        i = i + 1;
    }
    None
}

/// The refusal where a secret is not there.
pub open spec fn missing_secret(name: Seq<char>) -> RefusalView {
    (500, "Server configuration error: missing "@ + name, "missing_config"@)
}

/// Takes a secret that was looked up under `name`.
pub fn read_secret(secret: Option<String>, name: &str, request_id: &str) -> (result: Result<
    String,
    Response,
>)
    ensures
        match result {
            Ok(value) => optional_text(secret) == Some(value@),
            Err(response) => secret is None && tells(
                response@,
                missing_secret(name@),
                request_id@,
            ),
        },
{
    match secret {
        Some(value) => Ok(value),
        None => {
            let message = "Server configuration error: missing ".to_string().concat(name);
            Err(json_error(500, message.as_str(), "missing_config", request_id))
        },
    }
}

/// Why a request is refused that brings `given` for a key where `expected` is the key:
/// it brings none, there is none, or the two are not the same.
pub open spec fn key_refusal(given: Option<Seq<char>>, expected: Option<Seq<char>>) -> Option<
    RefusalView,
> {
    match (given, expected) {
        (None, _) => Some(
            (400, "Missing required query parameter: csvkey"@, "missing_csvkey"@),
        ),
        (Some(_), None) => Some(missing_secret("CSVKEY"@)),
        (Some(key), Some(secret)) => if key == secret {
            None
        } else {
            Some((401, "Invalid authentication credentials"@, "unauthorized"@))
        },
    }
}

/// A request passes exactly where the key that it brings is the secret.
pub proof fn only_the_key_passes(given: Option<Seq<char>>, expected: Option<Seq<char>>)
    ensures
        key_refusal(given, expected) is None <==> given is Some && given == expected,
{
}

/// A request that does not pass is told why: it brings no key; or the secret is not set;
/// or the two differ.
pub proof fn key_refusals(given: Option<Seq<char>>, expected: Option<Seq<char>>)
    ensures
        given is None ==> key_refusal(given, expected) == Some(
            (400u16, "Missing required query parameter: csvkey"@, "missing_csvkey"@),
        ),
        given is Some && expected is None ==> key_refusal(given, expected) == Some(
            (500u16, "Server configuration error: missing "@ + "CSVKEY"@, "missing_config"@),
        ),
        given is Some && expected is Some && given != expected ==> key_refusal(given, expected)
            == Some((401u16, "Invalid authentication credentials"@, "unauthorized"@)),
{
}

/// Of several keys that a request brings only the first counts.
pub proof fn first_key_counts(
    pairs: Seq<(Seq<char>, Seq<char>)>,
    more: Seq<(Seq<char>, Seq<char>)>,
    key: Seq<char>,
)
    requires
        first_value(pairs, "csvkey"@) == Some(key),
    ensures
        first_value(pairs + more, "csvkey"@) == Some(key),
{
    first_value_append(pairs, more, "csvkey"@);
}

/// Holds the key that a request brings against the secret.
pub fn check_key(given: Option<&str>, expected: Option<String>, request_id: &str) -> (result: Result<
    (),
    Response,
>)
    ensures
        match result {
            Ok(_) => key_refusal(optional_str(given), optional_text(expected)) is None,
            Err(response) => key_refusal(
                optional_str(given),
                optional_text(expected),
            ) matches Some(refusal) && tells(response@, refusal, request_id@),
        },
{
    let key = match given {
        None => {
            return Err(
                json_error(
                    400,
                    "Missing required query parameter: csvkey",
                    "missing_csvkey",
                    request_id,
                ),
            );
        },
        Some(key) => key,
    };
    let secret = match read_secret(expected, "CSVKEY", request_id) {
        Err(response) => return Err(response),
        Ok(secret) => secret,
    };
    proof {
        encode_utf8_decode_utf8(key@);
        encode_utf8_decode_utf8(secret@);
    }
    if !constant_time_eq(key.as_bytes(), secret.as_str().as_bytes()) {
        return Err(
            json_error(401, "Invalid authentication credentials", "unauthorized", request_id),
        );
    }
    Ok(())
}

/// Looks up the key that a URL brings: its first `csvkey`.
pub fn given_key(url: &Url) -> (key: Option<String>)
    ensures
        optional_text(key) == first_value(query_pairs(*url), "csvkey"@),
{
    let pairs = read_query(url);
    match find_value(&pairs, "csvkey") {
        Some(key) => Some(key.to_string()),
        None => None,
    }
}

/// Lets a request pass whose URL brings the secret for its first `csvkey`.
pub fn validate_auth(url: &Url, expected: Option<String>, request_id: &str) -> (result: Result<
    (),
    Response,
>)
    ensures
        match result {
            Ok(_) => key_refusal(
                first_value(query_pairs(*url), "csvkey"@),
                optional_text(expected),
            ) is None,
            Err(response) => key_refusal(
                first_value(query_pairs(*url), "csvkey"@),
                optional_text(expected),
            ) matches Some(refusal) && tells(response@, refusal, request_id@),
        },
{
    match given_key(url) {
        Some(key) => check_key(Some(key.as_str()), expected, request_id),
        None => check_key(None, expected, request_id),
    }
}

} // verus!
