//! Small verified helpers over `&str`, `String` and `Vec<char>`.
//!
//! Contracts in this crate speak of a string through its view, a `Seq<char>`.
//! The helpers here bridge between that view and the executable operations
//! that are available on strings.

use vstd::prelude::*;
use vstd::string::*;
use vstd::utf8::*;

verus! {

/// Whether two strings hold the same characters.
pub fn str_equal(a: &str, b: &str) -> (same: bool)
    ensures
        same == (a@ == b@),
{
    let x = a.as_bytes();
    let y = b.as_bytes();
    proof {
        encode_utf8_decode_utf8(a@);
        encode_utf8_decode_utf8(b@);
    }
    if x.len() != y.len() {
        return false;
    }
    let mut i: usize = 0;
    while i < x.len()
        invariant
            i <= x.len(),
            x.len() == y.len(),
            x@ == encode_utf8(a@),
            y@ == encode_utf8(b@),
            forall|j: int| 0 <= j < i ==> x@[j] == y@[j],
        decreases x.len() - i,
    {
        if x[i] != y[i] {
            return false;
        }
        i += 1;
    }
    assert(x@ =~= y@);
    true
}

/// Calls std's `String::from_utf8`. The contract claims what its
/// documentation says: the bytes are taken for a string exactly if they are
/// valid UTF-8, and the string then consists of these bytes.
#[verifier::external_body]
pub(crate) fn string_from_utf8(bytes: Vec<u8>) -> (text: Option<String>)
    ensures
        text is Some <==> valid_utf8(bytes@),
        text matches Some(made) ==> encode_utf8(made@) == bytes@,
{
    String::from_utf8(bytes).ok()
}

/// The value of a hexadecimal digit, in either case.
pub open spec fn hex_value(byte: u8) -> Option<u8> {
    if 48 <= byte <= 57 {
        Some((byte - 48) as u8)
    } else if 97 <= byte <= 102 {
        Some((byte - 87) as u8)
    } else if 65 <= byte <= 70 {
        Some((byte - 55) as u8)
    } else {
        None
    }
}

/// Whether the bytes begin with an escape: `%` and two hexadecimal digits.
pub open spec fn begins_with_escape(bytes: Seq<u8>) -> bool {
    bytes.len() >= 3 && bytes[0] == 37 && hex_value(bytes[1]) is Some && hex_value(bytes[2])
        is Some
}

/// The bytes with every escape replaced by the byte it stands for. A `%`
/// that begins no escape stays as it is.
pub open spec fn percent_decoded_bytes(bytes: Seq<u8>) -> Seq<u8>
    decreases bytes.len(),
{
    if bytes.len() == 0 {
        Seq::empty()
    } else if begins_with_escape(bytes) {
        seq![(hex_value(bytes[1])->Some_0 * 16 + hex_value(bytes[2])->Some_0) as u8]
            + percent_decoded_bytes(bytes.skip(3))
    } else {
        seq![bytes[0]] + percent_decoded_bytes(bytes.skip(1))
    }
}

/// The text that `text` stands for once its escapes are resolved: the UTF-8
/// bytes of `text` are decoded, and what comes out is read as UTF-8. There
/// is no such text where what comes out is not UTF-8.
pub open spec fn percent_decoded(text: Seq<char>) -> Option<Seq<char>> {
    let bytes = percent_decoded_bytes(encode_utf8(text));
    if valid_utf8(bytes) {
        Some(decode_utf8(bytes))
    } else {
        None
    }
}

/// The value of a hexadecimal digit.
fn hex_digit(byte: u8) -> (value: Option<u8>)
    ensures
        value == hex_value(byte),
{
    if 48 <= byte && byte <= 57 {
        Some(byte - 48)
    } else if 97 <= byte && byte <= 102 {
        Some(byte - 87)
    } else if 65 <= byte && byte <= 70 {
        Some(byte - 55)
    } else {
        None
    }
}

/// Resolves the percent escapes of `text`.
pub fn percent_decode(text: &str) -> (decoded: Option<String>)
    ensures
        decoded is Some <==> percent_decoded(text@) is Some,
        decoded matches Some(plain) ==> percent_decoded(text@) == Some(plain@),
{
    let bytes = text.as_bytes();
    let mut out: Vec<u8> = Vec::new();
    let mut i: usize = 0;
    assert(bytes@.skip(0) =~= bytes@);
    while i < bytes.len()
        invariant
            i <= bytes.len(),
            percent_decoded_bytes(bytes@) == out@ + percent_decoded_bytes(bytes@.skip(i as int)),
        decreases bytes.len() - i,
    {
        let ghost rest = bytes@.skip(i as int);
        let mut escaped: Option<u8> = None;
        if bytes[i] == 37 && bytes.len() - i >= 3 {
            let high = hex_digit(bytes[i + 1]);
            let low = hex_digit(bytes[i + 2]);
            if let (Some(high), Some(low)) = (high, low) {
                escaped = Some(high * 16 + low);
            }
        }
        match escaped {
            Some(byte) => {
                assert(begins_with_escape(rest));
                assert(rest.skip(3) =~= bytes@.skip(i + 3));
                assert(out@.push(byte) + percent_decoded_bytes(rest.skip(3)) =~= out@ + (seq![byte]
                    + percent_decoded_bytes(rest.skip(3))));
                out.push(byte);
                i += 3;
            },
            None => {
                assert(!begins_with_escape(rest));
                assert(rest.skip(1) =~= bytes@.skip(i + 1));
                assert(out@.push(bytes@[i as int]) + percent_decoded_bytes(rest.skip(1)) =~= out@
                    + (seq![bytes@[i as int]] + percent_decoded_bytes(rest.skip(1))));
                out.push(bytes[i]);
                i += 1;
            },
        }
    }
    assert(out@ =~= percent_decoded_bytes(bytes@));
    let decoded = string_from_utf8(out);
    proof {
        if decoded is Some {
            encode_utf8_decode_utf8(decoded->Some_0@);
        }
    }
    decoded
}

/// The characters of `s`, in order.
pub fn chars_of(s: &str) -> (v: Vec<char>)
    ensures
        v@ == s@,
{
    let mut v: Vec<char> = Vec::new();
    for c in it: s.chars()
        invariant
            v@ == it.seq().take(it.index() as int),
            it.seq() == s@,
    {
        v.push(c);
    }
    v
}

/// Whether `s` begins with the characters of `prefix`.
pub fn has_prefix(s: &Vec<char>, prefix: &Vec<char>) -> (yes: bool)
    ensures
        yes == prefix@.is_prefix_of(s@),
{
    if prefix.len() > s.len() {
        return false;
    }
    let mut i: usize = 0;
    while i < prefix.len()
        invariant
            i <= prefix.len(),
            prefix.len() <= s.len(),
            forall|j: int| 0 <= j < i ==> s@[j] == prefix@[j],
        decreases prefix.len() - i,
    {
        if s[i] != prefix[i] {
            assert(s@.subrange(0, prefix@.len() as int)[i as int] != prefix@[i as int]);
            return false;
        }
        i += 1;
    }
    assert(s@.subrange(0, prefix@.len() as int) =~= prefix@);
    true
}

/// The lower-case form of an ASCII capital letter; any other character is
/// left as it is.
pub open spec fn lower_cased_char(c: char) -> char {
    if 'A' <= c && c <= 'Z' {
        ((c as u8) + 32) as char
    } else {
        c
    }
}

/// `text` with its ASCII capital letters in lower case.
pub open spec fn lower_cased(text: Seq<char>) -> Seq<char> {
    text.map_values(|c: char| lower_cased_char(c))
}

/// Putting a text in lower case twice is putting it in lower case once.
pub proof fn lemma_lower_cased_twice(text: Seq<char>)
    ensures
        lower_cased(lower_cased(text)) == lower_cased(text),
{
    assert(lower_cased(lower_cased(text)) =~= lower_cased(text));
}

/// The lower-case form of a character.
pub fn to_lower_case(c: char) -> (lower: char)
    ensures
        lower == lower_cased_char(c),
{
    if 'A' <= c && c <= 'Z' {
        ((c as u8) + 32) as char
    } else {
        c
    }
}

/// Whether `text`, put in lower case, is `wanted`.
pub fn equals_in_lower_case(text: &Vec<char>, wanted: &str) -> (same: bool)
    ensures
        same == (lower_cased(text@) == wanted@),
{
    let wanted_chars = chars_of(wanted);
    if text.len() != wanted_chars.len() {
        return false;
    }
    let mut i: usize = 0;
    while i < text.len()
        invariant
            i <= text.len(),
            text.len() == wanted_chars.len(),
            wanted_chars@ == wanted@,
            forall|j: int| 0 <= j < i ==> lower_cased(text@)[j] == wanted@[j],
        decreases text.len() - i,
    {
        if to_lower_case(text[i]) != wanted_chars[i] {
            assert(lower_cased(text@)[i as int] != wanted@[i as int]);
            return false;
        }
        i += 1;
    }
    assert(lower_cased(text@) =~= wanted@);
    true
}

/// The index of the first `wanted` in `s` at or after `from`, or the length
/// of `s` where there is none.
pub fn find_char(s: &Vec<char>, from: usize, wanted: char) -> (at: usize)
    requires
        from <= s.len(),
    ensures
        from <= at <= s.len(),
        forall|j: int| from <= j < at ==> s@[j] != wanted,
        at < s.len() ==> s@[at as int] == wanted,
{
    let mut at: usize = from;
    while at < s.len() && s[at] != wanted
        invariant
            from <= at <= s.len(),
            forall|j: int| from <= j < at ==> s@[j] != wanted,
        decreases s.len() - at,
    {
        at += 1;
    }
    at
}

/// The decimal digit that stands for `d`, for `d` below ten.
pub open spec fn digit_char(d: nat) -> char {
    if d == 0 {
        '0'
    } else if d == 1 {
        '1'
    } else if d == 2 {
        '2'
    } else if d == 3 {
        '3'
    } else if d == 4 {
        '4'
    } else if d == 5 {
        '5'
    } else if d == 6 {
        '6'
    } else if d == 7 {
        '7'
    } else if d == 8 {
        '8'
    } else {
        '9'
    }
}

/// The decimal numeral of `n`: its digits, most significant first, with no
/// leading zero except for zero itself.
pub open spec fn decimal(n: nat) -> Seq<char>
    decreases n,
{
    if n < 10 {
        seq![digit_char(n)]
    } else {
        decimal(n / 10).push(digit_char(n % 10))
    }
}

fn digit_str(d: u64) -> (s: &'static str)
    requires
        d < 10,
    ensures
        s@ == seq![digit_char(d as nat)],
{
    proof {
        reveal_strlit("0");
        reveal_strlit("1");
        reveal_strlit("2");
        reveal_strlit("3");
        reveal_strlit("4");
        reveal_strlit("5");
        reveal_strlit("6");
        reveal_strlit("7");
        reveal_strlit("8");
        reveal_strlit("9");
    }
    let s = if d == 0 {
        "0"
    } else if d == 1 {
        "1"
    } else if d == 2 {
        "2"
    } else if d == 3 {
        "3"
    } else if d == 4 {
        "4"
    } else if d == 5 {
        "5"
    } else if d == 6 {
        "6"
    } else if d == 7 {
        "7"
    } else if d == 8 {
        "8"
    } else {
        "9"
    };
    assert(s@ =~= seq![digit_char(d as nat)]);
    s
}

/// Writes `n` as a decimal numeral.
pub fn decimal_string(n: u64) -> (s: String)
    ensures
        s@ == decimal(n as nat),
    decreases n,
{
    if n < 10 {
        String::from_str(digit_str(n))
    } else {
        let head = decimal_string(n / 10);
        let s = head.concat(digit_str(n % 10));
        assert(s@ =~= decimal(n as nat));
        s
    }
}

} // verus!
