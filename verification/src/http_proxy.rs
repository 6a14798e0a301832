//! The HTTP forwarding engine: what is sent downstream for an inbound
//! request, and what is handed back to the caller afterwards.
//!
//! Sending the request is left to the caller. This module decides the
//! outbound address, the headers that travel and whether a body is attached,
//! and it turns the downstream's answer, or the failure to get one, into the
//! result of the forwarding.

use crate::headers::{
    grouped, header_fields, header_lines, header_map_copy_line, header_map_lines,
    header_map_new, header_name_of, header_room, lemma_grouped, lines_of,
    normalized_header_name, values_of,
};
use crate::text::{chars_of, equals_in_lower_case, lemma_lower_cased_twice, lower_cased};
use reqwest::header::HeaderMap;
use std::time::Duration;
use vstd::prelude::*;
use vstd::set_lib::*;
use vstd::string::*;

verus! {

/// Why a request could not be forwarded.
#[derive(Debug, Clone, PartialEq, Eq)]
pub enum ProxyError {
    /// The downstream address is not an absolute URL; the text is the address.
    InvalidUrl(String),
    /// The request could not be built or sent, or no answer came in time.
    RequestFailed(String),
    /// The downstream's answer could not be turned into a response.
    ResponseBuildFailed(String),
}

/// What a [`ProxyError`] holds, as mathematical values.
pub enum ProxyErrorView {
    InvalidUrl(Seq<char>),
    RequestFailed(Seq<char>),
    ResponseBuildFailed(Seq<char>),
}

impl View for ProxyError {
    type V = ProxyErrorView;

    open spec fn view(&self) -> ProxyErrorView {
        match self {
            ProxyError::InvalidUrl(url) => ProxyErrorView::InvalidUrl(url@),
            ProxyError::RequestFailed(reason) => ProxyErrorView::RequestFailed(reason@),
            ProxyError::ResponseBuildFailed(reason) => ProxyErrorView::ResponseBuildFailed(reason@),
        }
    }
}

/// The text shown for an error.
pub open spec fn error_text(error: ProxyErrorView) -> Seq<char> {
    match error {
        ProxyErrorView::InvalidUrl(url) => "Invalid URL: "@ + url,
        ProxyErrorView::RequestFailed(reason) => "Request failed: "@ + reason,
        ProxyErrorView::ResponseBuildFailed(reason) => "Failed to build response: "@ + reason,
    }
}

impl ProxyError {
    /// The text shown for this error.
    pub fn message(&self) -> (text: String)
        ensures
            text@ == error_text(self@),
    {
        match self {
            ProxyError::InvalidUrl(url) => String::from_str("Invalid URL: ").concat(url.as_str()),
            ProxyError::RequestFailed(reason) => String::from_str("Request failed: ").concat(
                reason.as_str(),
            ),
            ProxyError::ResponseBuildFailed(reason) => String::from_str(
                "Failed to build response: ",
            ).concat(reason.as_str()),
        }
    }
}

/// `text` with every `/` at its end taken away.
pub open spec fn without_trailing_slashes(text: Seq<char>) -> Seq<char>
    decreases text.len(),
{
    if text.len() > 0 && text.last() == '/' {
        without_trailing_slashes(text.drop_last())
    } else {
        text
    }
}

/// What is left of a text without its trailing slashes begins the text, does
/// not end in `/`, and is followed by slashes only.
pub proof fn lemma_without_trailing_slashes(text: Seq<char>)
    ensures
        without_trailing_slashes(text).is_prefix_of(text),
        without_trailing_slashes(text).len() > 0 ==> without_trailing_slashes(text).last() != '/',
        forall|i: int| without_trailing_slashes(text).len() <= i < text.len() ==> text[i] == '/',
    decreases text.len(),
{
    let kept = without_trailing_slashes(text);
    if text.len() > 0 && text.last() == '/' {
        let shorter = text.drop_last();
        lemma_without_trailing_slashes(shorter);
        assert(kept =~= text.subrange(0, kept.len() as int)) by {
            assert(kept =~= shorter.subrange(0, kept.len() as int));
        }
        assert forall|i: int| kept.len() <= i < text.len() implies text[i] == '/' by {
            if i < shorter.len() {
                assert(shorter[i] == '/');
            }
        }
    } else {
        assert(text.subrange(0, text.len() as int) =~= text);
    }
}

/// The address a request is forwarded to: the target's base URL without
/// trailing slashes, followed by the forward path.
pub open spec fn full_url(target_base: Seq<char>, forward_path: Seq<char>) -> Seq<char> {
    without_trailing_slashes(target_base) + forward_path
}

/// Joins the target's base URL and the forward path.
pub fn build_full_url(target_base: &str, forward_path: &str) -> (url: String)
    ensures
        url@ == full_url(target_base@, forward_path@),
{
    let chars = chars_of(target_base);
    let mut keep: usize = chars.len();
    assert(target_base@.take(keep as int) =~= target_base@);
    while keep > 0 && chars[keep - 1] == '/'
        invariant
            keep <= chars.len(),
            chars@ == target_base@,
            without_trailing_slashes(target_base@) == without_trailing_slashes(
                target_base@.take(keep as int),
            ),
        decreases keep,
    {
        assert(target_base@.take(keep as int).drop_last() =~= target_base@.take(keep - 1));
        keep -= 1;
    }
    let stem = target_base.substring_char(0, keep);
    assert(stem@ =~= target_base@.take(keep as int));
    String::from_str(stem).concat(forward_path)
}

/// Whether `Url::parse` accepts `text` as an absolute URL.
pub uninterp spec fn parses_as_url(text: Seq<char>) -> bool;

/// Calls `reqwest::Url::parse` and says whether it made a URL of the text.
/// The contract gives that answer a name.
#[verifier::external_body]
fn url_accepted(text: &str) -> (accepted: bool)
    ensures
        accepted == parses_as_url(text@),
{
    reqwest::Url::parse(text).is_ok()
}

/// Whether a header of this name is left out of the outbound request: the
/// names that each hop of a connection sets for itself, in any casing.
pub open spec fn is_hop_by_hop_name(name: Seq<char>) -> bool {
    let lower = lower_cased(name);
    lower == "host"@ || lower == "connection"@ || lower == "transfer-encoding"@ || lower
        == "content-length"@
}

/// Whether a header of this name is left out of the outbound request.
pub fn is_hop_by_hop(name: &str) -> (skipped: bool)
    ensures
        skipped == is_hop_by_hop_name(name@),
{
    let chars = chars_of(name);
    equals_in_lower_case(&chars, "host") || equals_in_lower_case(&chars, "connection")
        || equals_in_lower_case(&chars, "transfer-encoding") || equals_in_lower_case(
        &chars,
        "content-length",
    )
}

/// Whether a header travels downstream when its name is written as `name`:
/// the text must make a header name, and not a hop-by-hop one.
pub open spec fn is_forwardable_name(name: Seq<char>) -> bool {
    header_name_of(name) is Some && !is_hop_by_hop_name(name)
}

/// Whether a header travels downstream when its name is written as `name`.
///
/// A hop-by-hop name is refused in every casing: `Host` and `HOST` no less
/// than `host`.
pub fn forwards_header_named(name: &str) -> (forwarded: bool)
    ensures
        forwarded == is_forwardable_name(name@),
{
    match normalized_header_name(name) {
        Some(normal) => {
            proof {
                lemma_lower_cased_twice(name@);
            }
            !is_hop_by_hop(normal.as_str())
        },
        None => false,
    }
}

/// Whether a header of this name travels with the outbound request: the
/// inbound request has it, and it is not hop-by-hop.
pub open spec fn is_forwarded(fields: Map<Seq<char>, Seq<Seq<u8>>>, name: Seq<char>) -> bool {
    fields.contains_key(name) && !is_hop_by_hop_name(name)
}

/// The headers of the outbound request, given those of the inbound one:
/// every name that is not hop-by-hop, with one value, the last that the
/// inbound request has for it.
pub open spec fn forwarded_fields(fields: Map<Seq<char>, Seq<Seq<u8>>>) -> Map<
    Seq<char>,
    Seq<Seq<u8>>,
> {
    Map::new(|name: Seq<char>| is_forwarded(fields, name), |name: Seq<char>| seq![fields[name].last()])
}

/// How one more inbound line changes the outbound headers.
proof fn lemma_forwarded_line(lines: Seq<(Seq<char>, Seq<u8>)>)
    requires
        lines.len() > 0,
    ensures
        !is_hop_by_hop_name(lines.last().0) ==> forwarded_fields(grouped(lines))
            == forwarded_fields(grouped(lines.drop_last())).insert(
            lines.last().0,
            seq![lines.last().1],
        ),
        is_hop_by_hop_name(lines.last().0) ==> forwarded_fields(grouped(lines)) == forwarded_fields(
            grouped(lines.drop_last()),
        ),
{
    let before = grouped(lines.drop_last());
    let (name, value) = lines.last();
    let earlier = values_of(before, name);
    let after = grouped(lines);
    assert(after == before.insert(name, earlier.push(value)));
    assert(earlier.push(value).last() == value);
    if !is_hop_by_hop_name(name) {
        assert(forwarded_fields(after) =~= forwarded_fields(before).insert(name, seq![value]));
    } else {
        assert(forwarded_fields(after) =~= forwarded_fields(before));
    }
}

/// The names that travel after some of the lines are among those that travel
/// after all of them.
proof fn lemma_forwarded_names_stay(lines: Seq<(Seq<char>, Seq<u8>)>, upto: int, name: Seq<char>)
    requires
        0 <= upto <= lines.len(),
        forwarded_fields(grouped(lines.take(upto))).contains_key(name),
    ensures
        forwarded_fields(grouped(lines)).contains_key(name),
    decreases lines.len() - upto,
{
    if upto < lines.len() {
        let more = lines.take(upto + 1);
        assert(more.drop_last() =~= lines.take(upto));
        lemma_forwarded_line(more);
        lemma_forwarded_names_stay(lines, upto + 1, name);
    } else {
        assert(lines.take(upto) =~= lines);
    }
}

/// The outbound headers are finitely many, no more than the inbound request
/// has names, and no more than it has lines.
pub proof fn lemma_forwarded_count(lines: Seq<(Seq<char>, Seq<u8>)>)
    ensures
        forwarded_fields(grouped(lines)).dom().finite(),
        forwarded_fields(grouped(lines)).dom().len() <= grouped(lines).dom().len(),
        forwarded_fields(grouped(lines)).dom().len() <= lines.len(),
{
    lemma_grouped(lines);
    let inbound = grouped(lines).dom();
    let outbound = forwarded_fields(grouped(lines)).dom();
    assert(outbound.subset_of(inbound));
    lemma_len_subset(outbound, inbound);
}

/// The headers that travel downstream with a request that came in with
/// `inbound`.
///
/// A header is left out if its name is hop-by-hop. Every other header
/// travels under its name as it stands, with one value: the last that the
/// inbound request has for it, byte for byte. The result is `None` only
/// where the outbound map refused a header for want of room, which does not
/// happen while fewer than [`header_room`] names are to be forwarded.
pub fn forwardable_headers(inbound: &HeaderMap) -> (outbound: Option<HeaderMap>)
    ensures
        outbound matches Some(out) ==> header_fields(out) == forwarded_fields(
            header_fields(*inbound),
        ),
        forwarded_fields(header_fields(*inbound)).dom().len() < header_room() ==> outbound is Some,
        header_lines(*inbound).len() < header_room() ==> outbound is Some,
{
    let lines = header_map_lines(inbound);
    let mut out = header_map_new();
    let ghost all = header_lines(*inbound);
    proof {
        lemma_forwarded_count(all);
        assert(header_lines(out) =~= all.take(0));
        assert(forwarded_fields(grouped(all.take(0))) =~= grouped(all.take(0)));
    }
    let mut i: usize = 0;
    while i < lines.len()
        invariant
            i <= lines.len(),
            all == header_lines(*inbound),
            all == lines_of(lines@),
            header_fields(out) == forwarded_fields(grouped(all.take(i as int))),
        decreases lines.len() - i,
    {
        let line = &lines[i];
        proof {
            let upto = all.take(i + 1);
            assert(upto.drop_last() =~= all.take(i as int));
            assert(upto.last() == all[i as int]);
            assert(all[i as int] == line@);
            lemma_forwarded_line(upto);
        }
        if !is_hop_by_hop(line.name.as_str()) {
            proof {
                // What `out` holds so far is among what is to be forwarded.
                let so_far = header_fields(out).dom();
                let wanted = forwarded_fields(grouped(all)).dom();
                lemma_forwarded_count(all);
                assert forall|name: Seq<char>| so_far.contains(name) implies wanted.contains(
                    name,
                ) by {
                    lemma_forwarded_names_stay(all, i as int, name);
                }
                lemma_len_subset(so_far, wanted);
            }
            let stored = header_map_copy_line(&mut out, inbound, i);
            if !stored {
                return None;
            }
        }
        i += 1;
    }
    assert(all.take(lines@.len() as int) =~= all);
    Some(out)
}

/// A request that is ready to be sent downstream.
#[derive(Debug)]
pub struct OutboundRequest {
    /// The method, as it came in.
    pub method: String,
    /// The address the request goes to.
    pub url: String,
    /// The headers that travel with it.
    pub headers: HeaderMap,
    /// The body; `None` where the inbound request had none.
    pub body: Option<Vec<u8>>,
    /// How long to wait for the downstream's answer.
    pub timeout: Duration,
}

/// The body that travels downstream: none for an empty inbound body,
/// otherwise the inbound body, byte for byte.
pub open spec fn outbound_body(body: Seq<u8>) -> Option<Seq<u8>> {
    if body.len() == 0 {
        None
    } else {
        Some(body)
    }
}

/// The bytes of an optional body.
pub open spec fn body_bytes(body: Option<Vec<u8>>) -> Option<Seq<u8>> {
    match body {
        Some(bytes) => Some(bytes@),
        None => None,
    }
}

/// The answer of the downstream server, before its body is read.
#[derive(Debug)]
pub struct ResponseHead {
    /// The status code.
    pub status: u16,
    /// The headers.
    pub headers: HeaderMap,
}

/// Whether a number can be an HTTP status code.
pub open spec fn is_status_code(status: u16) -> bool {
    100 <= status < 1000
}

/// The HTTP forwarding engine.
#[derive(Debug, Clone, Copy)]
pub struct HttpProxy {
    timeout: Duration,
}

impl HttpProxy {
    /// How long a forwarded request may take.
    pub closed spec fn spec_timeout(&self) -> Duration {
        self.timeout
    }

    /// Create a new HTTP proxy client
    pub fn new(timeout: Duration) -> (proxy: HttpProxy)
        ensures
            proxy.spec_timeout() == timeout,
    {
        HttpProxy { timeout }
    }

    /// How long a forwarded request may take.
    #[verifier::when_used_as_spec(spec_timeout)]
    pub fn timeout(&self) -> (timeout: Duration)
        ensures
            timeout == self.spec_timeout(),
    {
        self.timeout
    }

    /// Puts the outbound request together from its parts, once it is known
    /// whether the address is a URL and which headers travel.
    ///
    /// An address that is no URL is refused with `InvalidUrl`, which carries
    /// the address. Headers that could not be collected fail the request.
    /// Otherwise the request goes to `url` with the inbound method, the given
    /// headers, the body unless it is empty, and this engine's timeout.
    pub fn assemble_request(
        &self,
        method: &str,
        url: String,
        url_is_valid: bool,
        headers: Option<HeaderMap>,
        body: Vec<u8>,
    ) -> (assembled: Result<OutboundRequest, ProxyError>)
        ensures
            !url_is_valid ==> assembled is Err && assembled->Err_0@ == ProxyErrorView::InvalidUrl(
                url@,
            ),
            url_is_valid && headers is None ==> assembled is Err && assembled->Err_0@
                is RequestFailed,
            url_is_valid && headers is Some ==> assembled is Ok && ({
                let request = assembled->Ok_0;
                &&& request.method@ == method@
                &&& request.url@ == url@
                &&& request.headers == headers->Some_0
                &&& body_bytes(request.body) == outbound_body(body@)
                &&& request.timeout == self.spec_timeout()
            }),
    {
        if !url_is_valid {
            return Err(ProxyError::InvalidUrl(url));
        }
        match headers {
            None => Err(ProxyError::RequestFailed(String::from_str("too many headers to forward"))),
            Some(headers) => {
                let body = if body.len() == 0 {
                    None
                } else {
                    Some(body)
                };
                Ok(
                    OutboundRequest {
                        method: String::from_str(method),
                        url,
                        headers,
                        body,
                        timeout: self.timeout,
                    },
                )
            },
        }
    }

    /// Prepares the request that forwards an inbound request to the target.
    ///
    /// The address is the target's base URL without trailing slashes,
    /// followed by `path`; where that is no absolute URL the result is
    /// `InvalidUrl` with the address. Otherwise the request has the inbound
    /// method, the inbound headers without the hop-by-hop ones, and the
    /// inbound body unless it is empty. It fails with `RequestFailed` only
    /// where the headers to forward found no room in the outbound map, which
    /// does not happen while the inbound request has fewer than
    /// [`header_room`] header lines.
    pub fn prepare_request(
        &self,
        downstream_url: &str,
        path: &str,
        method: &str,
        headers: &HeaderMap,
        body: Vec<u8>,
    ) -> (prepared: Result<OutboundRequest, ProxyError>)
        ensures
            !parses_as_url(full_url(downstream_url@, path@)) ==> prepared is Err
                && prepared->Err_0@ == ProxyErrorView::InvalidUrl(
                full_url(downstream_url@, path@),
            ),
            parses_as_url(full_url(downstream_url@, path@)) ==> match prepared {
                Ok(request) => {
                    &&& request.method@ == method@
                    &&& request.url@ == full_url(downstream_url@, path@)
                    &&& header_fields(request.headers) == forwarded_fields(header_fields(*headers))
                    &&& body_bytes(request.body) == outbound_body(body@)
                    &&& request.timeout == self.spec_timeout()
                },
                Err(error) => error@ is RequestFailed,
            },
            parses_as_url(full_url(downstream_url@, path@)) && header_lines(*headers).len()
                < header_room() ==> prepared is Ok,
    {
        let url = build_full_url(downstream_url, path);
        let url_is_valid = url_accepted(url.as_str());
        let outbound = if url_is_valid {
            forwardable_headers(headers)
        } else {
            None
        };
        self.assemble_request(method, url, url_is_valid, outbound, body)
    }

    /// Turns what came of sending a request into the result of forwarding it.
    ///
    /// A request that could not be sent, or was not answered in time, fails
    /// with `RequestFailed` and the reason given. An answer is handed on with
    /// its status code and all of its headers as they are; one whose status
    /// is not a status code fails with `ResponseBuildFailed`.
    pub fn complete_response(&self, exchange: Result<ResponseHead, String>) -> (completed: Result<
        ResponseHead,
        ProxyError,
    >)
        ensures
            match exchange {
                Err(reason) => completed is Err && completed->Err_0@
                    == ProxyErrorView::RequestFailed(reason@),
                Ok(head) => if is_status_code(head.status) {
                    completed == Ok::<ResponseHead, ProxyError>(head)
                } else {
                    completed is Err && completed->Err_0@ is ResponseBuildFailed
                },
            },
    {
        match exchange {
            Err(reason) => Err(ProxyError::RequestFailed(reason)),
            Ok(head) => {
                if 100 <= head.status && head.status < 1000 {
                    Ok(head)
                } else {
                    Err(ProxyError::ResponseBuildFailed(String::from_str("invalid status code")))
                }
            },
        }
    }
}

/// No hop-by-hop header travels downstream, whatever the inbound request
/// holds: `host`, `connection`, `transfer-encoding` and `content-length` are
/// absent from the outbound headers, and so is every other casing of them.
pub proof fn lemma_hop_by_hop_headers_are_dropped(inbound: Map<Seq<char>, Seq<Seq<u8>>>)
    ensures
        !forwarded_fields(inbound).contains_key("host"@),
        !forwarded_fields(inbound).contains_key("connection"@),
        !forwarded_fields(inbound).contains_key("transfer-encoding"@),
        !forwarded_fields(inbound).contains_key("content-length"@),
        forall|name: Seq<char>|
            is_hop_by_hop_name(name) ==> !(#[trigger] forwarded_fields(inbound).contains_key(name)),
        forall|name: Seq<char>|
            is_hop_by_hop_name(lower_cased(name)) ==> !(#[trigger] forwarded_fields(
                inbound,
            ).contains_key(name)),
{
    reveal_strlit("host");
    reveal_strlit("connection");
    reveal_strlit("transfer-encoding");
    reveal_strlit("content-length");
    assert(lower_cased("host"@) =~= "host"@);
    assert(lower_cased("connection"@) =~= "connection"@);
    assert(lower_cased("transfer-encoding"@) =~= "transfer-encoding"@);
    assert(lower_cased("content-length"@) =~= "content-length"@);
    assert forall|name: Seq<char>| is_hop_by_hop_name(lower_cased(name)) implies !(
    #[trigger] forwarded_fields(inbound).contains_key(name)) by {
        lemma_lower_cased_twice(name);
    }
}

/// A header that is not hop-by-hop travels downstream under its own name,
/// with its last value, unchanged, and with that value only.
pub proof fn lemma_other_headers_are_forwarded(
    inbound: Map<Seq<char>, Seq<Seq<u8>>>,
    name: Seq<char>,
)
    requires
        inbound.contains_key(name),
        !is_hop_by_hop_name(name),
    ensures
        forwarded_fields(inbound).contains_key(name),
        forwarded_fields(inbound)[name] == seq![inbound[name].last()],
{
}

/// The names that travel downstream are exactly the inbound names that are
/// not hop-by-hop: none is dropped, none is added.
pub proof fn lemma_forwarded_names(inbound: Map<Seq<char>, Seq<Seq<u8>>>)
    ensures
        forwarded_fields(inbound).dom() == inbound.dom().filter(
            |name: Seq<char>| !is_hop_by_hop_name(name),
        ),
{
    assert(forwarded_fields(inbound).dom() =~= inbound.dom().filter(
        |name: Seq<char>| !is_hop_by_hop_name(name),
    ));
}

/// A header with a single value keeps that value byte for byte, and every
/// value that travels is one that came in under the same name.
pub proof fn lemma_forwarded_values_came_in(lines: Seq<(Seq<char>, Seq<u8>)>, name: Seq<char>)
    requires
        forwarded_fields(grouped(lines)).contains_key(name),
    ensures
        grouped(lines).contains_key(name),
        forwarded_fields(grouped(lines))[name].len() == 1,
        grouped(lines)[name].contains(forwarded_fields(grouped(lines))[name][0]),
        grouped(lines)[name].len() == 1 ==> forwarded_fields(grouped(lines))[name] == grouped(
            lines,
        )[name],
{
    lemma_grouped(lines);
    let values = grouped(lines)[name];
    assert(values[values.len() - 1] == values.last());
    if values.len() == 1 {
        assert(seq![values.last()] =~= values);
    }
}

} // verus!
