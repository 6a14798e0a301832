//! HTTP header maps, as far as the forwarding engine reads and fills them.
//!
//! The maps are those of the `http` crate, reached through `reqwest::header`.
//! Verus does not look inside them: what a map holds is named by
//! [`header_lines`], and the few operations the engine needs are small
//! functions whose contracts are taken on trust.

use crate::text::lower_cased;
use reqwest::header::{HeaderMap, HeaderName};
use vstd::prelude::*;
use vstd::set_lib::*;

verus! {

/// Makes `reqwest::header::HeaderMap` known to the verifier as an opaque type.
#[verifier::external_type_specification]
#[verifier::external_body]
#[verifier::reject_recursive_types(T)]
pub struct ExHeaderMap<T>(reqwest::header::HeaderMap<T>);

/// Makes `reqwest::header::HeaderValue` known to the verifier as an opaque type.
#[verifier::external_type_specification]
#[verifier::external_body]
pub struct ExHeaderValue(reqwest::header::HeaderValue);

/// What a header map holds: the lines that its iterator yields, in the
/// iterator's order. A line is a header name (as `HeaderName::as_str` gives
/// it) and the bytes of one value (as `HeaderValue::as_bytes` gives them); a
/// name with several values has a line for each.
pub uninterp spec fn header_lines(map: HeaderMap) -> Seq<(Seq<char>, Seq<u8>)>;

/// One header line: a name and the bytes of one value.
#[derive(Debug, Clone, PartialEq, Eq)]
pub struct HeaderField {
    pub name: String,
    pub value: Vec<u8>,
}

impl View for HeaderField {
    type V = (Seq<char>, Seq<u8>);

    open spec fn view(&self) -> (Seq<char>, Seq<u8>) {
        (self.name@, self.value@)
    }
}

/// The header lines behind a vector of fields.
pub open spec fn lines_of(fields: Seq<HeaderField>) -> Seq<(Seq<char>, Seq<u8>)> {
    fields.map_values(|field: HeaderField| field@)
}

/// The values of `name` in `fields`, or none where the name is absent.
pub open spec fn values_of(fields: Map<Seq<char>, Seq<Seq<u8>>>, name: Seq<char>) -> Seq<Seq<u8>> {
    if fields.contains_key(name) {
        fields[name]
    } else {
        Seq::empty()
    }
}

/// No header at all.
pub open spec fn no_headers() -> Map<Seq<char>, Seq<Seq<u8>>> {
    Map::empty()
}

/// Groups header lines by name: every name that occurs is mapped to the
/// values of its lines, in the order of the lines.
pub open spec fn grouped(lines: Seq<(Seq<char>, Seq<u8>)>) -> Map<Seq<char>, Seq<Seq<u8>>>
    decreases lines.len(),
{
    if lines.len() == 0 {
        no_headers()
    } else {
        let before = grouped(lines.drop_last());
        let (name, value) = lines.last();
        before.insert(name, values_of(before, name).push(value))
    }
}

/// The headers of a map by name: each name with its values, in their order.
pub open spec fn header_fields(map: HeaderMap) -> Map<Seq<char>, Seq<Seq<u8>>> {
    grouped(header_lines(map))
}

/// The number of names below which a header map is sure to take one more
/// header.
///
/// A map refuses a header only where it holds 32768 names or its table
/// would have to grow past 32768 slots. A table of that many slots is asked
/// to grow only when the map holds 24576 names, or, after a run of colliding
/// names, when five times the number of names reaches the number of slots.
pub open spec fn header_room() -> nat {
    6554
}

/// Grouped lines have finitely many names, no more than there are lines,
/// and every name has a value.
pub proof fn lemma_grouped(lines: Seq<(Seq<char>, Seq<u8>)>)
    ensures
        grouped(lines).dom().finite(),
        grouped(lines).dom().len() <= lines.len(),
        forall|name: Seq<char>| #[trigger]
            grouped(lines).contains_key(name) ==> grouped(lines)[name].len() > 0,
        forall|i: int| 0 <= i < lines.len() ==> grouped(lines).contains_key(#[trigger] lines[i].0),
    decreases lines.len(),
{
    if lines.len() > 0 {
        let shorter = lines.drop_last();
        lemma_grouped(shorter);
        assert forall|i: int| 0 <= i < lines.len() implies grouped(lines).contains_key(
            #[trigger] lines[i].0,
        ) by {
            if i < shorter.len() {
                assert(shorter[i] == lines[i]);
            }
        }
    }
}

/// Calls `HeaderMap::new`. The contract claims that the new map holds no
/// line.
#[verifier::external_body]
pub(crate) fn header_map_new() -> (fresh: HeaderMap)
    ensures
        header_lines(fresh).len() == 0,
{
    HeaderMap::new()
}

/// Walks `HeaderMap::iter` and copies every line out, the name through
/// `HeaderName::as_str` and the value through `HeaderValue::as_bytes`.
///
/// The contract claims that these are the lines of the map, in their order.
#[verifier::external_body]
pub(crate) fn header_map_lines(map: &HeaderMap) -> (lines: Vec<HeaderField>)
    ensures
        lines_of(lines@) == header_lines(*map),
{
    map.iter().map(
        |(name, value)|
            HeaderField { name: name.as_str().to_owned(), value: value.as_bytes().to_vec() },
    ).collect()
}

/// Calls `HeaderMap::try_insert` on `out` with clones of the name and the
/// value of one line of `from`, the line that `HeaderMap::iter` yields at
/// position `at`, and says whether `out` took them.
///
/// Finding the line costs a walk over the lines before it.
///
/// The contract claims that a map that takes the pair then holds exactly
/// this one value under the name and is unchanged under every other name;
/// that a map that refuses is left as it was; and that a map holding fewer
/// names than [`header_room`] does not refuse.
#[verifier::external_body]
pub(crate) fn header_map_copy_line(
    out: &mut HeaderMap,
    from: &HeaderMap,
    at: usize,
) -> (stored: bool)
    requires
        at < header_lines(*from).len(),
    ensures
        stored ==> header_fields(*final(out)) == header_fields(*old(out)).insert(
            header_lines(*from)[at as int].0,
            seq![header_lines(*from)[at as int].1],
        ),
        !stored ==> header_lines(*final(out)) == header_lines(*old(out)),
        header_fields(*old(out)).dom().len() < header_room() ==> stored,
{
    match from.iter().nth(at) {
        Some((name, value)) => out.try_insert(name.clone(), value.clone()).is_ok(),
        None => false,
    }
}

/// Whether a character may stand in a header name: an ASCII letter or digit,
/// or one of ``!#$%&'*+-.^_`|~``.
pub open spec fn is_name_char(c: char) -> bool {
    ('a' <= c && c <= 'z') || ('A' <= c && c <= 'Z') || ('0' <= c && c <= '9') || c == '!' || c
        == '#' || c == '$' || c == '%' || c == '&' || c == '\'' || c == '*' || c == '+' || c == '-'
        || c == '.' || c == '^' || c == '_' || c == '`' || c == '|' || c == '~'
}

/// What `HeaderName::from_bytes` makes of the UTF-8 bytes of `text`: where
/// the text is not empty, no longer than 65535 characters, and made of name
/// characters only, the text in lower case; else nothing.
pub open spec fn header_name_of(text: Seq<char>) -> Option<Seq<char>> {
    if 0 < text.len() <= 65535 && (forall|i: int| 0 <= i < text.len() ==> is_name_char(text[i])) {
        Some(lower_cased(text))
    } else {
        None
    }
}

/// Calls `HeaderName::from_bytes` on the bytes of `name` and hands back the
/// text of the name it made, if it made one.
///
/// The contract claims that the function refuses an empty name, one of more
/// than 65535 bytes and one with a byte that its table of name characters
/// does not admit, and that it hands back any other name in lower case.
#[verifier::external_body]
pub(crate) fn normalized_header_name(name: &str) -> (normal: Option<String>)
    ensures
        normal is Some <==> header_name_of(name@) is Some,
        normal matches Some(text) ==> header_name_of(name@) == Some(text@),
{
    match HeaderName::from_bytes(name.as_bytes()) {
        Ok(made) => Some(made.as_str().to_owned()),
        Err(_) => None,
    }
}

} // verus!
