//! Routing: which of the proxy's three routes a request takes, and the path
//! that a forwarded request asks of the downstream target.

use crate::text::{
    chars_of, find_char, has_prefix, percent_decode, percent_decoded, str_equal,
};
use vstd::prelude::*;
use vstd::string::*;

verus! {

/// Where a request goes.
#[derive(Debug, Clone, PartialEq, Eq)]
pub enum Route {
    /// The liveness probe.
    Health,
    /// A WebSocket session is to be opened for the session.
    Upgrade { session_id: String },
    /// The request is to be forwarded to the session's target, at `rest`.
    Forward { session_id: String, rest: String },
    /// The path is the probe's or an upgrade's, the method is not `GET`.
    MethodNotAllowed,
    /// The session's segment, or the rest, does not decode to UTF-8.
    BadRequest,
    /// The path is none of the proxy's.
    NotFound,
}

/// What a [`Route`] holds, as mathematical values.
pub enum RouteView {
    Health,
    Upgrade { session_id: Seq<char> },
    Forward { session_id: Seq<char>, rest: Seq<char> },
    MethodNotAllowed,
    BadRequest,
    NotFound,
}

impl View for Route {
    type V = RouteView;

    open spec fn view(&self) -> RouteView {
        match self {
            Route::Health => RouteView::Health,
            Route::Upgrade { session_id } => RouteView::Upgrade { session_id: session_id@ },
            Route::Forward { session_id, rest } => RouteView::Forward {
                session_id: session_id@,
                rest: rest@,
            },
            Route::MethodNotAllowed => RouteView::MethodNotAllowed,
            Route::BadRequest => RouteView::BadRequest,
            Route::NotFound => RouteView::NotFound,
        }
    }
}

/// Whether `text` can be one segment of a path: it is not empty and holds no
/// `/`.
pub open spec fn is_segment(text: Seq<char>) -> bool {
    text.len() > 0 && forall|i: int| 0 <= i < text.len() ==> text[i] != '/'
}

/// The number of characters of `text` that stand before its first `/`; the
/// length of `text` where it holds none.
pub open spec fn segment_len(text: Seq<char>) -> nat
    decreases text.len(),
{
    if text.len() == 0 || text[0] == '/' {
        0
    } else {
        1 + segment_len(text.drop_first())
    }
}

/// The upgrade route for the session that `segment` names.
pub open spec fn upgrade_route(segment: Seq<char>) -> RouteView {
    match percent_decoded(segment) {
        Some(session_id) => RouteView::Upgrade { session_id },
        None => RouteView::BadRequest,
    }
}

/// The forward route for the session that `segment` names, at `rest`.
pub open spec fn forward_route(segment: Seq<char>, rest: Seq<char>) -> RouteView {
    match (percent_decoded(segment), percent_decoded(rest)) {
        (Some(session_id), Some(rest)) => RouteView::Forward { session_id, rest },
        _ => RouteView::BadRequest,
    }
}

/// The route of a request, by its method and the path of its address.
///
/// `/health` is the probe and `/ws/` followed by one segment asks for an
/// upgrade; both answer to `GET` only. Any other path of the form `/`,
/// segment, `/`, rest is forwarded for the session that the segment names,
/// whatever the method and whatever the rest, which may be empty.
///
/// The path is matched as it stands, escapes and all. The session's segment
/// and the rest are then taken with their percent escapes resolved, so that
/// `/s%31/a%20b` is forwarded for the session `s1` at `a b`; a path whose
/// segment or rest does not decode to UTF-8 is a bad request.
pub open spec fn route_of(method: Seq<char>, path: Seq<char>) -> RouteView {
    let after_ws = path.skip("/ws/"@.len() as int);
    let after_slash = path.skip(1);
    let session_len = segment_len(after_slash) as int;
    if path == "/health"@ {
        if method == "GET"@ {
            RouteView::Health
        } else {
            RouteView::MethodNotAllowed
        }
    } else if "/ws/"@.is_prefix_of(path) && is_segment(after_ws) {
        if method == "GET"@ {
            upgrade_route(after_ws)
        } else {
            RouteView::MethodNotAllowed
        }
    } else if path.len() > 0 && path[0] == '/' && 0 < session_len < after_slash.len() {
        forward_route(after_slash.take(session_len), after_slash.skip(session_len + 1))
    } else {
        RouteView::NotFound
    }
}

/// The first `/` of a text is where its first segment ends.
pub proof fn lemma_segment_len(text: Seq<char>, stop: int)
    requires
        0 <= stop <= text.len(),
        forall|j: int| 0 <= j < stop ==> text[j] != '/',
        stop < text.len() ==> text[stop] == '/',
    ensures
        segment_len(text) == stop,
    decreases stop,
{
    if stop > 0 {
        lemma_segment_len(text.drop_first(), stop - 1);
    }
}

/// Finds the route of a request.
pub fn dispatch(method: &str, path: &str) -> (route: Route)
    ensures
        route@ == route_of(method@, path@),
{
    let is_get = str_equal(method, "GET");
    if str_equal(path, "/health") {
        return if is_get {
            Route::Health
        } else {
            Route::MethodNotAllowed
        };
    }
    let chars = chars_of(path);
    let n = chars.len();
    let ws = chars_of("/ws/");
    if has_prefix(&chars, &ws) {
        let start = ws.len();
        let stop = find_char(&chars, start, '/');
        let ghost after_ws = path@.skip(start as int);
        if start < n && stop == n {
            assert(is_segment(after_ws));
            if is_get {
                let segment = path.substring_char(start, n);
                assert(segment@ =~= after_ws);
                return match percent_decode(segment) {
                    Some(session_id) => Route::Upgrade { session_id },
                    None => Route::BadRequest,
                };
            } else {
                return Route::MethodNotAllowed;
            }
        }
        assert(!is_segment(after_ws)) by {
            if stop < n {
                assert(after_ws[stop - start] == '/');
            }
        }
    }
    if n > 0 && chars[0] == '/' {
        let stop = find_char(&chars, 1, '/');
        let ghost after_slash = path@.skip(1);
        proof {
            lemma_segment_len(after_slash, stop - 1);
        }
        if 1 < stop && stop < n {
            let segment = path.substring_char(1, stop);
            let rest = path.substring_char(stop + 1, n);
            assert(segment@ =~= after_slash.take(stop - 1));
            assert(rest@ =~= after_slash.skip(stop as int));
            return match (percent_decode(segment), percent_decode(rest)) {
                (Some(session_id), Some(rest)) => Route::Forward { session_id, rest },
                _ => Route::BadRequest,
            };
        }
    }
    Route::NotFound
}

/// A path of the form `/`, segment, `/`, rest is forwarded for the session
/// that the segment names, at the rest, both with their escapes resolved,
/// unless the path is an upgrade's.
pub proof fn lemma_forward_route(method: Seq<char>, session_id: Seq<char>, rest: Seq<char>)
    requires
        is_segment(session_id),
        !(session_id == "ws"@ && is_segment(rest)),
    ensures
        route_of(method, seq!['/'] + session_id + seq!['/'] + rest) == forward_route(
            session_id,
            rest,
        ),
{
    reveal_strlit("/health");
    reveal_strlit("/ws/");
    reveal_strlit("ws");
    let path = seq!['/'] + session_id + seq!['/'] + rest;
    let after_slash = path.skip(1);
    assert(after_slash =~= session_id + seq!['/'] + rest);
    let len = session_id.len() as int;
    lemma_segment_len(after_slash, len);
    assert(after_slash.take(len) =~= session_id);
    assert(after_slash.skip(len + 1) =~= rest);
    assert(path[1 + len] == '/');
    assert(path != "/health"@) by {
        if path == "/health"@ {
            let probe = "/health"@;
            assert(probe[2] == 'e' && probe[3] == 'a' && probe[4] == 'l' && probe[5] == 't'
                && probe[6] == 'h');
        }
    }
    if "/ws/"@.is_prefix_of(path) {
        let after_ws = path.skip(4);
        let ws = "/ws/"@;
        assert(ws == path.subrange(0, 4));
        assert(path[1] == ws[1] && path[2] == ws[2] && path[3] == ws[3]);
        assert(len == 2) by {
            if len > 2 {
                assert(session_id[2] == path[3]);
            }
        }
        assert(session_id =~= "ws"@) by {
            assert(session_id[0] == path[1]);
            assert(session_id[1] == path[2]);
        }
        assert(after_ws =~= rest);
    }
}

/// The path that a forwarded request asks of the downstream target: `/` for
/// an empty rest, the rest itself where it begins with `/`, else the rest
/// after a `/`; then, where there is a query, `?` and the query as it came.
pub open spec fn forward_path_of(rest: Seq<char>, query: Option<Seq<char>>) -> Seq<char> {
    let path = if rest.len() == 0 {
        seq!['/']
    } else if rest[0] == '/' {
        rest
    } else {
        seq!['/'] + rest
    };
    match query {
        Some(query) => path + seq!['?'] + query,
        None => path,
    }
}

/// A forward path always begins with `/`, whatever the rest and the query.
pub proof fn lemma_forward_path_is_rooted(rest: Seq<char>, query: Option<Seq<char>>)
    ensures
        forward_path_of(rest, query).len() > 0,
        forward_path_of(rest, query)[0] == '/',
{
}

/// The characters of an optional query string.
pub open spec fn query_text(query: Option<&str>) -> Option<Seq<char>> {
    match query {
        Some(query) => Some(query@),
        None => None,
    }
}

/// Builds the path that a forwarded request asks of the downstream target.
pub fn forward_path(rest: &str, query: Option<&str>) -> (path: String)
    ensures
        path@ == forward_path_of(rest@, query_text(query)),
{
    proof {
        reveal_strlit("/");
        reveal_strlit("?");
        assert("/"@ =~= seq!['/']);
        assert("?"@ =~= seq!['?']);
    }
    let path = if rest.is_empty() {
        String::from_str("/")
    } else if rest.get_char(0) == '/' {
        String::from_str(rest)
    } else {
        String::from_str("/").concat(rest)
    };
    match query {
        Some(query) => path.concat("?").concat(query),
        None => path,
    }
}

} // verus!
