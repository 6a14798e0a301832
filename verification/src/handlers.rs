//! What the proxy decides for a request once the session directory has
//! answered: whether the request is turned away, and where it goes if not.
//!
//! Looking the session up, and sending anything, is left to the caller. The
//! same rule stands before the HTTP route and the WebSocket route, so the two
//! never differ on which sessions are served.

use crate::http_proxy::{ProxyError, ResponseHead};
use crate::models::{is_available_status, Session};
use crate::routing::{forward_path, forward_path_of, query_text};
use crate::text::{chars_of, has_prefix};
use vstd::prelude::*;
use vstd::string::*;

verus! {

/// Why the session directory gave no session.
#[derive(Debug, Clone, PartialEq, Eq)]
pub enum LookupError {
    /// The directory holds no session of that identifier.
    NotFound,
    /// The lookup itself failed; the text says how.
    Failed(String),
}

/// The ways in which the proxy turns a request away.
#[derive(Debug, Clone, Copy, PartialEq, Eq, Structural)]
pub enum Rejection {
    /// The session did not resolve.
    NotFound,
    /// The session resolved, but its target is not available.
    Unavailable,
    /// Forwarding to the target failed.
    BadGateway,
}

impl Rejection {
    /// The HTTP status code that tells the caller of the rejection.
    pub open spec fn spec_status_code(self) -> u16 {
        match self {
            Rejection::NotFound => 404,
            Rejection::Unavailable => 503,
            Rejection::BadGateway => 502,
        }
    }

    /// The HTTP status code that tells the caller of the rejection.
    #[verifier::when_used_as_spec(spec_status_code)]
    pub fn status_code(self) -> (code: u16)
        ensures
            code == self.spec_status_code(),
    {
        match self {
            Rejection::NotFound => 404,
            Rejection::Unavailable => 503,
            Rejection::BadGateway => 502,
        }
    }
}

/// Which sessions are served: a lookup that failed, for whatever reason, is
/// "not found"; a session whose status is not an available one is
/// "unavailable"; any other session passes.
pub open spec fn served(lookup: Result<Session, LookupError>) -> Result<Session, Rejection> {
    match lookup {
        Err(_) => Err(Rejection::NotFound),
        Ok(session) => if is_available_status(session.downstream_server_status@) {
            Ok(session)
        } else {
            Err(Rejection::Unavailable)
        },
    }
}

/// Decides whether a session is served: it has to have resolved, and its
/// target has to be available. Both routes ask here.
pub fn resolve_session(lookup: Result<Session, LookupError>) -> (outcome: Result<Session, Rejection>)
    ensures
        outcome == served(lookup),
{
    match lookup {
        Err(_) => Err(Rejection::NotFound),
        Ok(session) => {
            if session.is_available() {
                Ok(session)
            } else {
                Err(Rejection::Unavailable)
            }
        },
    }
}

/// Where an HTTP request is forwarded to.
#[derive(Debug, Clone, PartialEq, Eq)]
pub struct ForwardTarget {
    /// The base URL of the session's downstream target.
    pub downstream_url: String,
    /// The path asked of the target, with the query if there is one.
    pub path: String,
}

/// Decides on an HTTP request for a session, given what the directory said
/// of the session, the path after the session's segment, and the query.
///
/// A session that is not served is turned away before anything is prepared
/// for the target. For one that passes, the request goes to the
/// session's target at the forward path made of `path` and `query`.
pub fn http_proxy_handler(
    lookup: Result<Session, LookupError>,
    path: &str,
    query: Option<&str>,
) -> (decision: Result<ForwardTarget, Rejection>)
    ensures
        match served(lookup) {
            Err(rejection) => decision == Err::<ForwardTarget, Rejection>(rejection),
            Ok(session) => decision is Ok && decision->Ok_0.downstream_url
                == session.downstream_server_url && decision->Ok_0.path@ == forward_path_of(
                path@,
                query_text(query),
            ),
        },
{
    match resolve_session(lookup) {
        Err(rejection) => Err(rejection),
        Ok(session) => Ok(
            ForwardTarget {
                downstream_url: session.downstream_server_url,
                path: forward_path(path, query),
            },
        ),
    }
}

/// What the caller of a forwarded request gets: the downstream's answer as
/// it is, whatever its status, or "bad gateway" where forwarding failed in
/// any way.
pub fn forward_outcome(forwarded: Result<ResponseHead, ProxyError>) -> (outcome: Result<
    ResponseHead,
    Rejection,
>)
    ensures
        match forwarded {
            Ok(head) => outcome == Ok::<ResponseHead, Rejection>(head),
            Err(_) => outcome == Err::<ResponseHead, Rejection>(Rejection::BadGateway),
        },
{
    match forwarded {
        Ok(head) => Ok(head),
        Err(_) => Err(Rejection::BadGateway),
    }
}

/// The WebSocket address of a target, given its base URL: `wss://` takes
/// the place of a leading `https://`, `ws://` that of a leading `http://`,
/// and `ws://` is put before a URL that has neither.
pub open spec fn ws_url_of(http_url: Seq<char>) -> Seq<char> {
    if "https://"@.is_prefix_of(http_url) {
        "wss://"@ + http_url.skip("https://"@.len() as int)
    } else if "http://"@.is_prefix_of(http_url) {
        "ws://"@ + http_url.skip("http://"@.len() as int)
    } else {
        "ws://"@ + http_url
    }
}

/// Convert HTTP/HTTPS URL to WS/WSS URL
pub fn convert_to_ws_url(http_url: &str) -> (ws_url: String)
    ensures
        ws_url@ == ws_url_of(http_url@),
{
    let chars = chars_of(http_url);
    let n = chars.len();
    let https = chars_of("https://");
    let http = chars_of("http://");
    if has_prefix(&chars, &https) {
        let rest = http_url.substring_char(https.len(), n);
        assert(rest@ =~= http_url@.skip("https://"@.len() as int));
        String::from_str("wss://").concat(rest)
    } else if has_prefix(&chars, &http) {
        let rest = http_url.substring_char(http.len(), n);
        assert(rest@ =~= http_url@.skip("http://"@.len() as int));
        String::from_str("ws://").concat(rest)
    } else {
        String::from_str("ws://").concat(http_url)
    }
}

/// Decides on a WebSocket request for a session, given what the directory
/// said of the session.
///
/// A session that is not served is turned away. For one that passes the
/// result is the WebSocket address of its target; the connection is then
/// upgraded before the target is tried.
pub fn websocket_handler(lookup: Result<Session, LookupError>) -> (decision: Result<
    String,
    Rejection,
>)
    ensures
        match served(lookup) {
            Err(rejection) => decision == Err::<String, Rejection>(rejection),
            Ok(session) => decision is Ok && decision->Ok_0@ == ws_url_of(
                session.downstream_server_url@,
            ),
        },
{
    match resolve_session(lookup) {
        Err(rejection) => Err(rejection),
        Ok(session) => Ok(convert_to_ws_url(session.downstream_server_url.as_str())),
    }
}

/// Health check endpoint: status 200 with the body `OK`, always.
pub fn health_check() -> (response: (u16, &'static str))
    ensures
        response.0 == 200,
        response.1@ == "OK"@,
{
    (200, "OK")
}

/// A session is served exactly if it resolved with a status that is
/// `active`, `online` or `ready`, and the same holds for both routes.
pub proof fn lemma_one_rule_for_both_routes(lookup: Result<Session, LookupError>)
    ensures
        served(lookup) is Ok <==> lookup is Ok && is_available_status(
            lookup->Ok_0.downstream_server_status@,
        ),
        lookup is Err ==> served(lookup) == Err::<Session, Rejection>(Rejection::NotFound),
        lookup is Ok && !is_available_status(lookup->Ok_0.downstream_server_status@) ==> served(
            lookup,
        ) == Err::<Session, Rejection>(Rejection::Unavailable),
{
}

} // verus!
