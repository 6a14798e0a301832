use reqwest::header::{HeaderMap, HeaderName, HeaderValue};
use ss_proxy::handlers::{
    forward_outcome, http_proxy_handler, websocket_handler, LookupError, Rejection,
};
use ss_proxy::http_proxy::{HttpProxy, ResponseHead};
use ss_proxy::models::Session;
use ss_proxy::routing::{dispatch, Route};
use ss_proxy::ws_proxy::{Frame, RelayAction, RelayEvent, Side, WsProxy, WsProxyError};
use std::time::Duration;

/// A directory that holds an active session `s1` and an inactive session `s2`.
fn directory(session_id: &str) -> Result<Session, LookupError> {
    match session_id {
        "s1" => Ok(Session {
            session_id: "s1".to_string(),
            downstream_server_url: "http://localhost:9000".to_string(),
            downstream_server_status: "active".to_string(),
        }),
        "s2" => Ok(Session {
            session_id: "s2".to_string(),
            downstream_server_url: "http://localhost:9000".to_string(),
            downstream_server_status: "inactive".to_string(),
        }),
        _ => Err(LookupError::NotFound),
    }
}

#[test]
fn get_for_an_active_session_reaches_its_target() {
    let (session_id, rest) = match dispatch("GET", "/s1/items") {
        Route::Forward { session_id, rest } => (session_id, rest),
        other => panic!("expected the forward route, got {:?}", other),
    };
    assert_eq!(session_id, "s1");
    assert_eq!(rest, "items");

    let target = http_proxy_handler(directory(&session_id), &rest, Some("x=1")).unwrap();
    assert_eq!(target.downstream_url, "http://localhost:9000");
    assert_eq!(target.path, "/items?x=1");

    let mut inbound = HeaderMap::new();
    inbound.insert(HeaderName::from_static("host"), HeaderValue::from_static("proxy:8080"));
    inbound.insert(HeaderName::from_static("accept"), HeaderValue::from_static("*/*"));
    let proxy = HttpProxy::new(Duration::from_secs(30));
    let request = proxy
        .prepare_request(&target.downstream_url, &target.path, "GET", &inbound, Vec::new())
        .unwrap();
    assert_eq!(request.method, "GET");
    assert_eq!(request.url, "http://localhost:9000/items?x=1");
    assert_eq!(request.body, None);
    assert_eq!(request.headers.len(), 1);
    assert_eq!(request.headers.get("accept").unwrap(), "*/*");

    let mut answered = HeaderMap::new();
    answered.insert(HeaderName::from_static("content-type"), HeaderValue::from_static("text/plain"));
    let head = ResponseHead { status: 201, headers: answered.clone() };
    let response = forward_outcome(proxy.complete_response(Ok(head))).unwrap();
    assert_eq!(response.status, 201);
    assert_eq!(response.headers, answered);
}

#[test]
fn request_for_an_inactive_session_is_unavailable() {
    for (path, method) in [("/s2/get", "GET"), ("/s2/", "POST"), ("/s2/a/b?c", "DELETE")] {
        let (session_id, rest) = match dispatch(method, path) {
            Route::Forward { session_id, rest } => (session_id, rest),
            other => panic!("expected the forward route, got {:?}", other),
        };
        let decision = http_proxy_handler(directory(&session_id), &rest, None);
        assert_eq!(decision, Err(Rejection::Unavailable));
        assert_eq!(decision.unwrap_err().status_code(), 503);
    }
}

#[test]
fn request_for_a_missing_session_is_not_found() {
    let (session_id, rest) = match dispatch("GET", "/s3/get") {
        Route::Forward { session_id, rest } => (session_id, rest),
        other => panic!("expected the forward route, got {:?}", other),
    };
    let decision = http_proxy_handler(directory(&session_id), &rest, None);
    assert_eq!(decision, Err(Rejection::NotFound));
    assert_eq!(decision.unwrap_err().status_code(), 404);

    let session_id = match dispatch("GET", "/ws/nonexistent-session") {
        Route::Upgrade { session_id } => session_id,
        other => panic!("expected the upgrade route, got {:?}", other),
    };
    assert_eq!(websocket_handler(directory(&session_id)), Err(Rejection::NotFound));
}

#[test]
fn downstream_that_cannot_be_reached_is_bad_gateway() {
    let proxy = HttpProxy::new(Duration::from_secs(30));
    let outcome = forward_outcome(proxy.complete_response(Err("connection refused".to_string())));
    assert_eq!(outcome.err(), Some(Rejection::BadGateway));
    assert_eq!(Rejection::BadGateway.status_code(), 502);
}

#[test]
fn websocket_echo_reaches_the_client_once() {
    let session_id = match dispatch("GET", "/ws/s1") {
        Route::Upgrade { session_id } => session_id,
        other => panic!("expected the upgrade route, got {:?}", other),
    };
    assert_eq!(websocket_handler(directory(&session_id)), Ok("ws://localhost:9000".to_string()));

    let mut relay = WsProxy::new();
    let mut to_client = Vec::new();
    let mut to_downstream = Vec::new();
    let events = vec![
        RelayEvent::Connected,
        RelayEvent::Received(Side::Client, Frame::Text("ping".to_string())),
        RelayEvent::Received(Side::Downstream, Frame::Text("ping".to_string())),
        RelayEvent::Received(Side::Client, Frame::Close),
        RelayEvent::Received(Side::Downstream, Frame::Text("late".to_string())),
    ];
    for event in events {
        match relay.on_event(event) {
            RelayAction::Forward(Side::Client, frame) => to_client.push(frame),
            RelayAction::Forward(Side::Downstream, frame) => to_downstream.push(frame),
            _ => {}
        }
    }
    assert_eq!(to_client, vec![Frame::Text("ping".to_string())]);
    assert_eq!(to_downstream, vec![Frame::Text("ping".to_string()), Frame::Close]);
    assert!(relay.is_closed());
}

#[test]
fn failed_downstream_connect_closes_the_upgraded_client() {
    // The session passes, so the client's connection is upgraded first.
    assert_eq!(websocket_handler(directory("s1")), Ok("ws://localhost:9000".to_string()));

    // Only then is the target tried; its failure ends the session at once.
    let mut relay = WsProxy::new();
    let action = relay.on_event(RelayEvent::ConnectFailed("connection refused".to_string()));
    assert_eq!(
        action,
        RelayAction::Abort(WsProxyError::ConnectionFailed("connection refused".to_string()))
    );
    assert!(relay.is_closed());
    for event in [
        RelayEvent::Received(Side::Client, Frame::Text("ping".to_string())),
        RelayEvent::Received(Side::Downstream, Frame::Text("pong".to_string())),
        RelayEvent::Connected,
    ] {
        assert_eq!(relay.on_event(event), RelayAction::Nothing);
    }
}
