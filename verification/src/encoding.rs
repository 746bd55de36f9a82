//! Base64, as it stands in headers.

use base64::engine::general_purpose::STANDARD;
use base64::Engine;
use vstd::prelude::*;

verus! {

/// The character that stands for six bits.
pub open spec fn sextet(n: nat) -> char {
    if n < 26 {
        (n + 65) as char
    } else if n < 52 {
        (n + 71) as char
    } else if n < 62 {
        (n - 4) as char
    } else if n == 62 {
        '+'
    } else {
        '/'
    }
}

/// Bytes in base64: four characters for each three bytes, and for one or two that are
/// left over as many as it takes, filled up with equals signs.
pub open spec fn base64_text(bytes: Seq<u8>) -> Seq<char>
    decreases bytes.len(),
{
    let a = bytes[0] as nat;
    let b = bytes[1] as nat;
    let c = bytes[2] as nat;
    if bytes.len() == 0 {
        seq![]
    } else if bytes.len() == 1 {
        seq![sextet(a / 4), sextet(a % 4 * 16), '=', '=']
    } else if bytes.len() == 2 {
        seq![sextet(a / 4), sextet(a % 4 * 16 + b / 16), sextet(b % 16 * 4), '=']
    } else {
        seq![
            sextet(a / 4),
            sextet(a % 4 * 16 + b / 16),
            sextet(b % 16 * 4 + c / 64),
            sextet(c % 64),
        ] + base64_text(bytes.skip(3))
    }
}

/// The six bits that a character stands for.
pub open spec fn sextet_value(c: char) -> Option<nat> {
    if 'A' <= c <= 'Z' {
        Some((c as nat - 65) as nat)
    } else if 'a' <= c <= 'z' {
        Some((c as nat - 71) as nat)
    } else if '0' <= c <= '9' {
        Some((c as nat + 4) as nat)
    } else if c == '+' {
        Some(62)
    } else if c == '/' {
        Some(63)
    } else {
        None
    }
}

/// The bytes that a text is base64 for, where it is.
pub open spec fn base64_bytes(text: Seq<char>) -> Option<Seq<u8>>
    decreases text.len(),
{
    if text.len() == 0 {
        Some(seq![])
    } else if text.len() < 4 {
        None
    } else {
        match (sextet_value(text[0]), sextet_value(text[1])) {
            (Some(p), Some(q)) => if text.len() == 4 && text[2] == '=' && text[3] == '=' {
                if q % 16 == 0 {
                    Some(seq![(p * 4 + q / 16) as u8])
                } else {
                    None
                }
            } else {
                match sextet_value(text[2]) {
                    None => None,
                    Some(r) => if text.len() == 4 && text[3] == '=' {
                        if r % 4 == 0 {
                            Some(seq![(p * 4 + q / 16) as u8, (q % 16 * 16 + r / 4) as u8])
                        } else {
                            None
                        }
                    } else {
                        match (sextet_value(text[3]), base64_bytes(text.skip(4))) {
                            (Some(s), Some(rest)) => Some(
                                seq![
                                    (p * 4 + q / 16) as u8,
                                    (q % 16 * 16 + r / 4) as u8,
                                    (r % 4 * 64 + s) as u8,
                                ] + rest,
                            ),
                            _ => None,
                        }
                    },
                }
            },
            _ => None,
        }
    }
}

/// A character stands for the six bits that it was chosen for, and is no equals sign.
proof fn sextet_is_read(n: nat)
    requires
        n < 64,
    ensures
        sextet_value(sextet(n)) == Some(n),
        sextet(n) != '=',
{
}

/// Decoding base64 gives the bytes back.
pub proof fn base64_is_decoded(bytes: Seq<u8>)
    ensures
        base64_bytes(base64_text(bytes)) == Some(bytes),
    decreases bytes.len(),
{
    let text = base64_text(bytes);
    let a = bytes[0] as nat;
    let b = bytes[1] as nat;
    let c = bytes[2] as nat;
    if bytes.len() == 0 {
        assert(bytes =~= seq![]);
    } else if bytes.len() == 1 {
        sextet_is_read(a / 4);
        sextet_is_read(a % 4 * 16);
        assert(base64_bytes(text)->Some_0 =~= bytes);
    } else if bytes.len() == 2 {
        sextet_is_read(a / 4);
        sextet_is_read(a % 4 * 16 + b / 16);
        sextet_is_read(b % 16 * 4);
        assert(base64_bytes(text)->Some_0 =~= bytes);
    } else {
        sextet_is_read(a / 4);
        sextet_is_read(a % 4 * 16 + b / 16);
        sextet_is_read(b % 16 * 4 + c / 64);
        sextet_is_read(c % 64);
        base64_is_decoded(bytes.skip(3));
        assert(text.skip(4) =~= base64_text(bytes.skip(3)));
        assert(base64_bytes(text)->Some_0 =~= bytes);
    }
}

/// Calls `encode` of base64's `STANDARD` engine, which writes base64 in the standard
/// alphabet, with padding.
#[verifier::external_body]
pub(crate) fn encode_base64(bytes: &[u8]) -> (text: String)
    ensures
        text@ == base64_text(bytes@),
{
    STANDARD.encode(bytes)
}

} // verus!
