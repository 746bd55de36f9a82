//! Request ids: version 4 UUIDs.

use vstd::prelude::*;

verus! {

/// The lower case hexadecimal digit that stands for `n`.
pub open spec fn hex_digit(n: nat) -> char {
    if n < 10 {
        (n + 48) as char
    } else {
        (n + 87) as char
    }
}

/// The bytes of an id: random bytes, but for the four bits of its version and the two
/// bits of its variant.
pub open spec fn id_byte(random: Seq<u8>, i: int) -> u8 {
    if i == 6 {
        (random[i] % 16 + 0x40) as u8
    } else if i == 8 {
        (random[i] % 64 + 0x80) as u8
    } else {
        random[i]
    }
}

/// Whether an id has a hyphen at position `k`.
pub open spec fn is_hyphen(k: int) -> bool {
    k == 8 || k == 13 || k == 18 || k == 23
}

/// How many hyphens stand before position `k`.
pub open spec fn hyphens_before(k: int) -> int {
    if k <= 8 {
        0
    } else if k <= 13 {
        1
    } else if k <= 18 {
        2
    } else if k <= 23 {
        3
    } else {
        4
    }
}

/// The half of a byte that stands at position `k`.
pub open spec fn half_byte(random: Seq<u8>, k: int) -> nat {
    let j = k - hyphens_before(k);
    let byte = id_byte(random, j / 2);
    if j % 2 == 0 {
        (byte / 16) as nat
    } else {
        (byte % 16) as nat
    }
}

/// The id that sixteen random bytes make.
pub open spec fn id_text(random: Seq<u8>) -> Seq<char> {
    Seq::new(
        36,
        |k: int|
            if is_hyphen(k) {
                '-'
            } else {
                hex_digit(half_byte(random, k))
            },
    )
}

/// Whether a character is a lower case hexadecimal digit.
pub open spec fn is_hex_digit(c: char) -> bool {
    '0' <= c <= '9' || 'a' <= c <= 'f'
}

/// Whether a text is a version 4 UUID in lower case: thirty-two hexadecimal digits in
/// groups of eight, four, four, four and twelve, the third group starting with the
/// version and the fourth with the variant.
pub open spec fn is_uuid_v4(text: Seq<char>) -> bool {
    &&& text.len() == 36
    &&& forall|k: int|
        0 <= k < 36 ==> if is_hyphen(k) {
            #[trigger] text[k] == '-'
        } else {
            is_hex_digit(text[k])
        }
    &&& text[14] == '4'
    &&& (text[19] == '8' || text[19] == '9' || text[19] == 'a' || text[19] == 'b')
}

/// Every id is a version 4 UUID.
pub proof fn ids_are_uuids(random: Seq<u8>)
    ensures
        is_uuid_v4(id_text(random)),
{
    let text = id_text(random);
    assert(half_byte(random, 14) == 4);
    assert(8 <= half_byte(random, 19) <= 11);
}

/// Different hexadecimal digits stand for different numbers.
proof fn hex_digit_is_injective(m: nat, n: nat)
    requires
        m < 16,
        n < 16,
        hex_digit(m) == hex_digit(n),
    ensures
        m == n,
{
}

/// Random bytes that differ in a bit that an id keeps make different ids.
pub proof fn ids_differ(a: Seq<u8>, b: Seq<u8>, i: int)
    requires
        0 <= i < 16,
        id_byte(a, i) != id_byte(b, i),
    ensures
        id_text(a) != id_text(b),
{
    let hyphens: int = if i < 4 {
        0
    } else if i < 6 {
        1
    } else if i < 8 {
        2
    } else if i < 10 {
        3
    } else {
        4
    };
    let k = 2 * i + hyphens;
    assert(half_byte(a, k) == id_byte(a, i) / 16);
    assert(half_byte(a, k + 1) == id_byte(a, i) % 16);
    assert(half_byte(b, k) == id_byte(b, i) / 16);
    assert(half_byte(b, k + 1) == id_byte(b, i) % 16);
    if id_text(a) == id_text(b) {
        assert(id_text(a)[k] == id_text(b)[k]);
        assert(id_text(a)[k + 1] == id_text(b)[k + 1]);
        hex_digit_is_injective(half_byte(a, k), half_byte(b, k));
        hex_digit_is_injective(half_byte(a, k + 1), half_byte(b, k + 1));
    }
}

/// The number that a hexadecimal digit stands for.
pub open spec fn digit_value(c: char) -> int {
    if c <= '9' {
        c as int - 48
    } else {
        c as int - 87
    }
}

/// An id spells its random bytes out in their order, two digits to each, the higher half
/// first: all their bits, but for the upper four of one byte and the upper two of
/// another.
pub proof fn ids_spell_bytes(random: Seq<u8>, i: int)
    requires
        0 <= i < 16,
    ensures
        ({
            let at = 2 * i + (if i < 4 {
                0int
            } else if i < 6 {
                1
            } else if i < 8 {
                2
            } else if i < 10 {
                3
            } else {
                4
            });
            let spelled = 16 * digit_value(id_text(random)[at]) + digit_value(
                id_text(random)[at + 1],
            );
            &&& i == 6 ==> spelled % 16 == random[i] % 16
            &&& i == 8 ==> spelled % 64 == random[i] % 64
            &&& i != 6 && i != 8 ==> spelled == random[i]
        }),
{
    let hyphens: int = if i < 4 {
        0
    } else if i < 6 {
        1
    } else if i < 8 {
        2
    } else if i < 10 {
        3
    } else {
        4
    };
    let at = 2 * i + hyphens;
    assert(half_byte(random, at) == id_byte(random, i) / 16);
    assert(half_byte(random, at + 1) == id_byte(random, i) % 16);
    assert(id_text(random)[at] == hex_digit(half_byte(random, at)));
    assert(id_text(random)[at + 1] == hex_digit(half_byte(random, at + 1)));
}

/// The lower case hexadecimal digit that stands for `n`.
pub(crate) fn hex(n: u8) -> (c: char)
    requires
        n < 16,
    ensures
        c == hex_digit(n as nat),
{
    if n < 10 {
        (n + 48) as char
    } else {
        (n + 87) as char
    }
}

/// Writes the id that sixteen random bytes make.
pub fn format_request_id(random: [u8; 16]) -> (id: String)
    ensures
        id@ == id_text(random@),
        is_uuid_v4(id@),
{
    let mut id = String::new();
    let mut i: usize = 0;
    let ghost text = id_text(random@);
    let ghost mut at: int = 0;
    while i < 16
        invariant
            i <= 16,
            text == id_text(random@),
            at == 2 * i + (if i <= 4 {
                0int
            } else if i <= 6 {
                1
            } else if i <= 8 {
                2
            } else if i <= 10 {
                3
            } else {
                4
            }),
            id@ == text.take(at),
        decreases 16 - i,
    {
        if i == 4 || i == 6 || i == 8 || i == 10 {
            id.push('-');
            proof {
                assert(text[at] == '-');
                at = at + 1;
                assert(id@ =~= text.take(at));
            }
        }
        let given = random[i];
        let byte: u8 = if i == 6 {
            assert((given & 0x0f) | 0x40 == given % 16 + 0x40) by (bit_vector);
            (given & 0x0f) | 0x40
        } else if i == 8 {
            assert((given & 0x3f) | 0x80 == given % 64 + 0x80) by (bit_vector);
            (given & 0x3f) | 0x80
        } else {
            given
        };
        assert(byte == id_byte(random@, i as int));
        id.push(hex(byte / 16));
        id.push(hex(byte % 16));
        proof {
            assert(at - hyphens_before(at) == 2 * i);
            assert(at + 1 - hyphens_before(at + 1) == 2 * i + 1);
            assert(text[at] == hex_digit((byte / 16) as nat));
            assert(text[at + 1] == hex_digit((byte % 16) as nat));
            at = at + 2;
            assert(id@ =~= text.take(at));
        }
        i = i + 1;
    }
    proof {
        assert(text.take(36) =~= text);
        ids_are_uuids(random@);
    }
    id
}

/// `getrandom::Error`, why there are no random bytes.
#[verifier::external_type_specification]
#[verifier::external_body]
pub struct ExError(getrandom::Error);

/// That the system has no random bytes to give.
#[derive(Debug)]
pub struct RandomUnavailable;

/// Calls `getrandom::getrandom` for sixteen bytes. Nothing is said of which they are,
/// or of when the system has none.
#[verifier::external_body]
fn random_bytes() -> (result: Result<[u8; 16], getrandom::Error>) {
    let mut bytes = [0u8; 16];
    match getrandom::getrandom(&mut bytes) {
        Ok(()) => Ok(bytes),
        Err(error) => Err(error),
    }
}

/// Makes an id from what the system answered when it was asked for random bytes: the id
/// that the bytes make, or that there are none.
pub fn request_id_of(answer: Result<[u8; 16], getrandom::Error>) -> (result: Result<
    String,
    RandomUnavailable,
>)
    ensures
        match answer {
            Ok(random) => result matches Ok(id) && id@ == id_text(random@) && is_uuid_v4(id@),
            Err(_) => result is Err,
        },
{
    match answer {
        Ok(random) => Ok(format_request_id(random)),
        Err(_) => Err(RandomUnavailable),
    }
}

/// Makes an id from random bytes, where the system has any. Nothing is said of when it
/// has; `request_id_of` says what is made of each answer.
pub fn generate_request_id() -> (result: Result<String, RandomUnavailable>)
    ensures
        result matches Ok(id) ==> is_uuid_v4(id@) && exists|random: Seq<u8>|
            random.len() == 16 && id@ == #[trigger] id_text(random),
{
    request_id_of(random_bytes())
}

} // verus!
