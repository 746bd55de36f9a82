//! Records: flat JSON objects, one to a line.

use crate::json::Json;
use crate::request_id::{hex, hex_digit};
use crate::text::{
    bool_str, bool_text, decimal, decimal_text, digit, signed_decimal, signed_decimal_text,
};
use vstd::prelude::*;
use vstd::string::StringExecFns;

verus! {

/// What a member of a record holds.
#[derive(Debug)]
pub enum Scalar {
    Null,
    Bool(bool),
    Signed(i64),
    Unsigned(u64),
    Text(String),
}

impl View for Scalar {
    type V = Json;

    open spec fn view(&self) -> Json {
        match self {
            Scalar::Null => Json::Null,
            Scalar::Bool(b) => Json::Bool(*b),
            Scalar::Signed(n) => Json::Int(*n as int),
            Scalar::Unsigned(n) => Json::Int(*n as int),
            Scalar::Text(text) => Json::Str(text@),
        }
    }
}

/// A member of a record: its name, and what it holds.
pub type MemberView = (Seq<char>, Json);

/// What a list of members says.
pub open spec fn member_views(members: Seq<(&'static str, Scalar)>) -> Seq<MemberView> {
    members.map_values(|member: (&'static str, Scalar)| (member.0@, member.1@))
}

/// Whether a document is neither a float nor nests any other.
pub open spec fn is_scalar(json: Json) -> bool {
    json is Null || json is Bool || json is Int || json is Str
}

/// A character as it stands in a JSON string: behind a backslash where it is a quote or
/// a backslash, by its code where it is a control character.
pub open spec fn escaped_char(c: char) -> Seq<char> {
    if c == '"' || c == '\\' {
        seq!['\\', c]
    } else if (c as u32) < 0x20 {
        seq!['\\', 'u', '0', '0', hex_digit(c as nat / 16), hex_digit(c as nat % 16)]
    } else {
        seq![c]
    }
}

/// A text as it stands in a JSON string.
pub open spec fn escaped(text: Seq<char>) -> Seq<char>
    decreases text.len(),
{
    if text.len() == 0 {
        seq![]
    } else {
        escaped(text.drop_last()) + escaped_char(text.last())
    }
}

/// A text as a JSON string.
pub open spec fn quoted(text: Seq<char>) -> Seq<char> {
    seq!['"'] + escaped(text) + seq!['"']
}

/// What a member holds, as it stands in a record.
pub open spec fn scalar_text(json: Json) -> Seq<char> {
    match json {
        Json::Bool(b) => bool_text(b),
        Json::Int(n) => signed_decimal_text(n),
        Json::Str(text) => quoted(text),
        _ => "null"@,
    }
}

/// A member as it stands in a record.
pub open spec fn member_text(member: MemberView) -> Seq<char> {
    quoted(member.0) + seq![':'] + scalar_text(member.1)
}

/// Members with a comma between each two.
pub open spec fn members_text(members: Seq<MemberView>) -> Seq<char>
    decreases members.len(),
{
    if members.len() == 0 {
        seq![]
    } else if members.len() == 1 {
        member_text(members[0])
    } else {
        members_text(members.drop_last()) + seq![','] + member_text(members.last())
    }
}

/// A record with these members, in this order.
pub open spec fn record_text(members: Seq<MemberView>) -> Seq<char> {
    seq!['{'] + members_text(members) + seq!['}']
}

/// A text without quotes, backslashes and control characters stands as it is.
pub proof fn plain_is_not_escaped(text: Seq<char>)
    requires
        forall|i: int|
            0 <= i < text.len() ==> #[trigger] text[i] != '"' && text[i] != '\\' && text[i] as u32
                >= 0x20,
    ensures
        escaped(text) == text,
    decreases text.len(),
{
    if text.len() > 0 {
        plain_is_not_escaped(text.drop_last());
        assert(escaped(text) =~= text);
    }
}

/// The number that a lower case hexadecimal digit stands for.
pub open spec fn hex_value(c: char) -> Option<nat> {
    if '0' <= c <= '9' {
        Some((c as nat - 48) as nat)
    } else if 'a' <= c <= 'f' {
        Some((c as nat - 87) as nat)
    } else {
        None
    }
}

/// A character before what was read, where anything was.
pub open spec fn before(c: char, read: Option<(Seq<char>, Seq<char>)>) -> Option<
    (Seq<char>, Seq<char>),
> {
    match read {
        Some((text, rest)) => Some((seq![c] + text, rest)),
        None => None,
    }
}

/// Reads a JSON string behind its first quote: the text, and what stands behind the
/// string. Of the escapes of JSON those are read that records use.
pub open spec fn read_chars(written: Seq<char>) -> Option<(Seq<char>, Seq<char>)>
    decreases written.len(),
{
    if written.len() == 0 {
        None
    } else if written[0] == '"' {
        Some((seq![], written.skip(1)))
    } else if written[0] == '\\' {
        if written.len() >= 2 && (written[1] == '"' || written[1] == '\\') {
            before(written[1], read_chars(written.skip(2)))
        } else if written.len() >= 6 && written[1] == 'u' && written[2] == '0' && written[3]
            == '0' {
            match (hex_value(written[4]), hex_value(written[5])) {
                (Some(high), Some(low)) => before(
                    (16 * high + low) as char,
                    read_chars(written.skip(6)),
                ),
                _ => None,
            }
        } else {
            None
        }
    } else if (written[0] as u32) < 0x20 {
        None
    } else {
        before(written[0], read_chars(written.skip(1)))
    }
}

/// Reads a JSON string: its text, and what stands behind it.
pub open spec fn read_string(written: Seq<char>) -> Option<(Seq<char>, Seq<char>)> {
    if written.len() > 0 && written[0] == '"' {
        read_chars(written.skip(1))
    } else {
        None
    }
}

/// Whether a character is a decimal digit.
pub open spec fn is_digit(c: char) -> bool {
    '0' <= c <= '9'
}

/// How many digits a text starts with.
pub open spec fn leading_digits(written: Seq<char>) -> nat
    decreases written.len(),
{
    if written.len() == 0 || !is_digit(written[0]) {
        0
    } else {
        1 + leading_digits(written.skip(1))
    }
}

/// The number that digits stand for.
pub open spec fn number_of(digits: Seq<char>) -> nat
    decreases digits.len(),
{
    if digits.len() == 0 {
        0
    } else {
        number_of(digits.drop_last()) * 10 + (digits.last() as nat - 48) as nat
    }
}

/// Reads an integer, which starts with a zero only where it is zero, and what stands
/// behind it, which is no fraction and no exponent.
pub open spec fn read_integer(written: Seq<char>) -> Option<(int, Seq<char>)> {
    let negative = written.len() > 0 && written[0] == '-';
    let digits = if negative {
        written.skip(1)
    } else {
        written
    };
    let count = leading_digits(digits);
    let rest = digits.skip(count as int);
    let number = number_of(digits.take(count as int)) as int;
    if count == 0 || (count > 1 && digits[0] == '0') {
        None
    } else if rest.len() > 0 && (rest[0] == '.' || rest[0] == 'e' || rest[0] == 'E') {
        None
    } else if negative {
        Some((-number, rest))
    } else {
        Some((number, rest))
    }
}

/// Whether a text starts with another.
pub open spec fn starts_with(text: Seq<char>, start: Seq<char>) -> bool {
    start.len() <= text.len() && text.take(start.len() as int) == start
}

/// Reads what a member holds, and what stands behind it.
pub open spec fn read_scalar(written: Seq<char>) -> Option<(Json, Seq<char>)> {
    if starts_with(written, "null"@) {
        Some((Json::Null, written.skip("null"@.len() as int)))
    } else if starts_with(written, "true"@) {
        Some((Json::Bool(true), written.skip("true"@.len() as int)))
    } else if starts_with(written, "false"@) {
        Some((Json::Bool(false), written.skip("false"@.len() as int)))
    } else if let Some((text, rest)) = read_string(written) {
        Some((Json::Str(text), rest))
    } else if let Some((number, rest)) = read_integer(written) {
        Some((Json::Int(number), rest))
    } else {
        None
    }
}

/// Reads a member, and what stands behind it.
pub open spec fn read_member(written: Seq<char>) -> Option<(MemberView, Seq<char>)> {
    match read_string(written) {
        Some((name, rest)) => if rest.len() > 0 && rest[0] == ':' {
            match read_scalar(rest.skip(1)) {
                Some((value, end)) => Some(((name, value), end)),
                None => None,
            }
        } else {
            None
        },
        None => None,
    }
}

/// Reads members with a comma between each two, up to the brace that ends a record, and
/// what stands behind it.
pub open spec fn read_members(written: Seq<char>) -> Option<(Seq<MemberView>, Seq<char>)>
    decreases written.len(),
{
    match read_member(written) {
        Some((member, rest)) => if rest.len() == 0 || rest.len() > written.len() {
            None
        } else if rest[0] == '}' {
            Some((seq![member], rest.skip(1)))
        } else if rest[0] == ',' {
            match read_members(rest.skip(1)) {
                Some((more, end)) => Some((seq![member] + more, end)),
                None => None,
            }
        } else {
            None
        },
        None => None,
    }
}

/// Reads a JSON object that has members, none of which nests another, and nothing behind
/// it.
pub open spec fn read_record(written: Seq<char>) -> Option<Seq<MemberView>> {
    if written.len() > 0 && written[0] == '{' {
        match read_members(written.skip(1)) {
            Some((members, rest)) => if rest.len() == 0 {
                Some(members)
            } else {
                None
            },
            None => None,
        }
    } else {
        None
    }
}

/// What stands behind an escaped character is read behind that character.
proof fn escaped_char_is_read(c: char, rest: Seq<char>)
    ensures
        read_chars(escaped_char(c) + rest) == before(c, read_chars(rest)),
{
    let written = escaped_char(c) + rest;
    assert(written.skip(escaped_char(c).len() as int) =~= rest);
    if c != '"' && c != '\\' && (c as u32) < 0x20 {
        let high = c as nat / 16;
        let low = c as nat % 16;
        assert(hex_value(hex_digit(high)) == Some(high));
        assert(hex_value(hex_digit(low)) == Some(low));
        assert(written[4] == hex_digit(high));
        assert(written[5] == hex_digit(low));
        assert(16 * high + low == c as nat);
    }
}

/// Two texts one behind the other are escaped one behind the other.
proof fn escaped_concat(a: Seq<char>, b: Seq<char>)
    ensures
        escaped(a + b) == escaped(a) + escaped(b),
    decreases b.len(),
{
    if b.len() == 0 {
        assert(a + b =~= a);
        assert(escaped(a) + escaped(b) =~= escaped(a));
    } else {
        assert((a + b).drop_last() =~= a + b.drop_last());
        escaped_concat(a, b.drop_last());
        assert(escaped(a + b) =~= escaped(a) + escaped(b));
    }
}

/// A text is read behind the first quote of its string.
proof fn chars_are_read(text: Seq<char>, rest: Seq<char>)
    ensures
        read_chars(escaped(text) + seq!['"'] + rest) == Some((text, rest)),
    decreases text.len(),
{
    let written = escaped(text) + seq!['"'] + rest;
    if text.len() == 0 {
        assert(written.skip(1) =~= rest);
        assert(text =~= seq![]);
    } else {
        let first = seq![text[0]];
        let more = text.drop_first();
        chars_are_read(more, rest);
        assert(text =~= first + more);
        escaped_concat(first, more);
        assert(escaped(first) =~= escaped_char(text[0])) by {
            reveal_with_fuel(escaped, 2);
        }
        let tail = escaped(more) + seq!['"'] + rest;
        escaped_char_is_read(text[0], tail);
        assert(written =~= escaped_char(text[0]) + tail);
        assert(seq![text[0]] + more =~= text);
    }
}

/// A text can be read back from the string that stands for it.
pub proof fn string_is_read(text: Seq<char>, rest: Seq<char>)
    ensures
        read_string(quoted(text) + rest) == Some((text, rest)),
{
    let written = quoted(text) + rest;
    assert(written.skip(1) =~= escaped(text) + seq!['"'] + rest);
    chars_are_read(text, rest);
}

/// A number in decimal is digits, of which the first is zero only where it is alone, and
/// which stand for the number.
pub proof fn decimal_is_digits(n: nat)
    ensures
        decimal_text(n).len() > 0,
        forall|i: int| 0 <= i < decimal_text(n).len() ==> is_digit(#[trigger] decimal_text(n)[i]),
        decimal_text(n).len() > 1 ==> decimal_text(n)[0] != '0',
        number_of(decimal_text(n)) == n,
    decreases n,
{
    let text = decimal_text(n);
    if n < 10 {
        assert(text.drop_last() =~= seq![]);
        reveal_with_fuel(number_of, 2);
    } else {
        decimal_is_digits(n / 10);
        let front = decimal_text(n / 10);
        assert(text.drop_last() =~= front);
        assert(text.last() == digit(n % 10));
        if front.len() == 1 {
            reveal_with_fuel(number_of, 2);
            assert(front.drop_last() =~= seq![]);
            assert(front[0] == front.last());
        }
    }
}

/// Digits are counted up to what is no digit.
proof fn digits_are_counted(digits: Seq<char>, rest: Seq<char>)
    requires
        forall|i: int| 0 <= i < digits.len() ==> is_digit(#[trigger] digits[i]),
        rest.len() > 0 ==> !is_digit(rest[0]),
    ensures
        leading_digits(digits + rest) == digits.len(),
    decreases digits.len(),
{
    if digits.len() == 0 {
        assert(digits + rest =~= rest);
    } else {
        assert((digits + rest).skip(1) =~= digits.drop_first() + rest);
        assert((digits + rest)[0] == digits[0]);
        digits_are_counted(digits.drop_first(), rest);
    }
}

/// An integer is read up to the comma or the brace behind it.
proof fn integer_is_read(n: int, rest: Seq<char>)
    requires
        rest.len() > 0,
        rest[0] == ',' || rest[0] == '}',
    ensures
        read_integer(signed_decimal_text(n) + rest) == Some((n, rest)),
        is_digit(signed_decimal_text(n)[0]) || signed_decimal_text(n)[0] == '-',
        signed_decimal_text(n).len() > 0,
{
    let written = signed_decimal_text(n) + rest;
    let magnitude: nat = (if n < 0 { -n } else { n }) as nat;
    let digits = decimal_text(magnitude);
    decimal_is_digits(magnitude);
    digits_are_counted(digits, rest);
    if n < 0 {
        assert(written.skip(1) =~= digits + rest);
    } else {
        assert(is_digit(digits[0]));
        assert(written[0] == digits[0]);
    }
    assert((digits + rest).take(digits.len() as int) =~= digits);
    assert((digits + rest).skip(digits.len() as int) =~= rest);
    assert((digits + rest)[0] == digits[0]);
}

/// An integer with nothing behind it is read.
pub proof fn integer_alone_is_read(n: int)
    ensures
        read_integer(signed_decimal_text(n)) == Some((n, Seq::<char>::empty())),
{
    let written = signed_decimal_text(n);
    let magnitude: nat = (if n < 0 { -n } else { n }) as nat;
    let digits = decimal_text(magnitude);
    decimal_is_digits(magnitude);
    digits_are_counted(digits, seq![]);
    assert(digits + seq![] =~= digits);
    if n < 0 {
        assert(written.skip(1) =~= digits);
    } else {
        assert(is_digit(digits[0]));
    }
    assert(digits.take(digits.len() as int) =~= digits);
    assert(digits.skip(digits.len() as int) =~= seq![]);
}

/// What a member holds is read up to the comma or the brace behind it.
proof fn scalar_is_read(json: Json, rest: Seq<char>)
    requires
        is_scalar(json),
        rest.len() > 0,
        rest[0] == ',' || rest[0] == '}',
    ensures
        read_scalar(scalar_text(json) + rest) == Some((json, rest)),
        scalar_text(json).len() > 0,
{
    reveal_strlit("null");
    reveal_strlit("true");
    reveal_strlit("false");
    let text = scalar_text(json);
    let written = text + rest;
    assert("null"@[0] == 'n' && "true"@[0] == 't' && "false"@[0] == 'f');
    match json {
        Json::Int(n) => {
            integer_is_read(n, rest);
            assert(written[0] == text[0]);
            assert(starts_with(written, "null"@) ==> written.take(4)[0] == 'n');
            assert(starts_with(written, "true"@) ==> written.take(4)[0] == 't');
            assert(starts_with(written, "false"@) ==> written.take(5)[0] == 'f');
        },
        Json::Str(s) => {
            string_is_read(s, rest);
            assert(written[0] == '"');
            assert(starts_with(written, "null"@) ==> written.take(4)[0] == 'n');
            assert(starts_with(written, "true"@) ==> written.take(4)[0] == 't');
            assert(starts_with(written, "false"@) ==> written.take(5)[0] == 'f');
        },
        _ => {
            assert(written.take(text.len() as int) =~= text);
            assert(written.skip(text.len() as int) =~= rest);
            assert(starts_with(written, text));
            assert(written[0] == text[0]);
            assert(starts_with(written, "null"@) ==> written.take(4)[0] == 'n');
            assert(starts_with(written, "true"@) ==> written.take(4)[0] == 't');
        },
    }
}

/// A member is read up to the comma or the brace behind it.
proof fn member_is_read(member: MemberView, rest: Seq<char>)
    requires
        is_scalar(member.1),
        rest.len() > 0,
        rest[0] == ',' || rest[0] == '}',
    ensures
        read_member(member_text(member) + rest) == Some((member, rest)),
        member_text(member).len() > 0,
{
    let behind = scalar_text(member.1) + rest;
    assert(member_text(member) + rest =~= quoted(member.0) + (seq![':'] + behind));
    string_is_read(member.0, seq![':'] + behind);
    assert((seq![':'] + behind).skip(1) =~= behind);
    scalar_is_read(member.1, rest);
}

/// The first of several members stands before a comma and the others.
proof fn first_member_is_apart(members: Seq<MemberView>)
    requires
        members.len() > 1,
    ensures
        members_text(members) == member_text(members[0]) + seq![','] + members_text(
            members.drop_first(),
        ),
    decreases members.len(),
{
    let others = members.drop_first();
    if members.len() == 2 {
        assert(members_text(members.drop_last()) == member_text(members[0])) by {
            assert(members.drop_last()[0] == members[0]);
        }
        assert(others[0] == members.last());
    } else {
        first_member_is_apart(members.drop_last());
        assert(members.drop_last().drop_first() =~= others.drop_last());
        assert(members_text(members) =~= member_text(members[0]) + seq![','] + members_text(
            others,
        ));
    }
}

/// Members are read up to the brace behind them.
proof fn members_are_read(members: Seq<MemberView>, rest: Seq<char>)
    requires
        members.len() > 0,
        forall|i: int| 0 <= i < members.len() ==> is_scalar(#[trigger] members[i].1),
    ensures
        read_members(members_text(members) + seq!['}'] + rest) == Some((members, rest)),
    decreases members.len(),
{
    let end = seq!['}'] + rest;
    let written = members_text(members) + seq!['}'] + rest;
    assert(is_scalar(members[0].1));
    if members.len() == 1 {
        member_is_read(members[0], end);
        assert(written =~= member_text(members[0]) + end);
        assert(end.skip(1) =~= rest);
        assert(seq![members[0]] =~= members);
    } else {
        let others = members.drop_first();
        assert forall|i: int| 0 <= i < others.len() implies is_scalar(#[trigger] others[i].1) by {
            assert(is_scalar(members[i + 1].1));
        }
        first_member_is_apart(members);
        members_are_read(others, rest);
        let more = members_text(others) + seq!['}'] + rest;
        let behind = seq![','] + more;
        assert(written =~= member_text(members[0]) + behind);
        member_is_read(members[0], behind);
        assert(behind.skip(1) =~= more);
        assert(seq![members[0]] + others =~= members);
    }
}

/// A record is a JSON object, and reading it gives its members back, in their order.
pub proof fn record_is_read(members: Seq<MemberView>)
    requires
        members.len() > 0,
        forall|i: int| 0 <= i < members.len() ==> is_scalar(#[trigger] members[i].1),
    ensures
        read_record(record_text(members)) == Some(members),
{
    members_are_read(members, seq![]);
    let written = record_text(members);
    assert(written.skip(1) =~= members_text(members) + seq!['}'] + seq![]);
}

/// Puts what a character is in a JSON string behind a text.
fn push_escaped(out: &mut String, c: char)
    ensures
        final(out)@ == old(out)@ + escaped_char(c),
{
    let ghost start = out@;
    let code: u32 = c as u32;
    if c == '"' || c == '\\' {
        out.push('\\');
        out.push(c);
    } else if code < 0x20 {
        out.push('\\');
        out.push('u');
        out.push('0');
        out.push('0');
        out.push(hex((code / 16) as u8));
        out.push(hex((code % 16) as u8));
    } else {
        out.push(c);
    }
    assert(out@ =~= start + escaped_char(c));
}

/// Puts a text behind another, as a JSON string.
fn append_quoted(out: &mut String, text: &str)
    ensures
        final(out)@ == old(out)@ + quoted(text@),
{
    let ghost start = out@;
    out.push('"');
    assert(out@ =~= start + seq!['"'] + escaped(text@.take(0)));
    for c in iter: text.chars()
        invariant
            iter.seq() == text@,
            out@ == start + seq!['"'] + escaped(text@.take(iter.index())),
    {
        push_escaped(out, c);
        proof {
            let through = text@.take(iter.index() + 1);
            assert(through.drop_last() =~= text@.take(iter.index()));
            assert(through.last() == c);
            assert(out@ =~= start + seq!['"'] + escaped(through));
        }
    }
    assert(text@.take(text@.len() as int) =~= text@);
    out.push('"');
    assert(out@ =~= start + quoted(text@));
}

/// Puts what a member holds behind a text.
fn append_scalar(out: &mut String, scalar: &Scalar)
    ensures
        final(out)@ == old(out)@ + scalar_text(scalar@),
{
    match scalar {
        Scalar::Null => out.append("null"),
        Scalar::Bool(b) => out.append(bool_str(*b)),
        Scalar::Signed(n) => out.append(signed_decimal(*n).as_str()),
        Scalar::Unsigned(n) => out.append(decimal(*n).as_str()),
        Scalar::Text(text) => append_quoted(out, text.as_str()),
    }
}

/// Writes a record.
pub(crate) fn write_record(members: &Vec<(&'static str, Scalar)>) -> (text: String)
    ensures
        text@ == record_text(member_views(members@)),
{
    let ghost all = member_views(members@);
    let mut text = String::new();
    text.push('{');
    let mut i: usize = 0;
    assert(text@ =~= seq!['{'] + members_text(all.take(0)));
    while i < members.len()
        invariant
            i <= members@.len(),
            all == member_views(members@),
            text@ == seq!['{'] + members_text(all.take(i as int)),
        decreases members@.len() - i,
    {
        let ghost start = text@;
        if i > 0 {
            text.push(',');
        }
        append_quoted(&mut text, members[i].0);
        text.push(':');
        append_scalar(&mut text, &members[i].1);
        proof {
            let through = all.take(i + 1);
            assert(through.drop_last() =~= all.take(i as int));
            assert(through.last() == all[i as int]);
            assert(text@ =~= seq!['{'] + members_text(through));
        }
        i = i + 1;
    }
    assert(all.take(i as int) =~= all);
    text.push('}');
    assert(text@ =~= record_text(all));
    text
}

} // verus!
