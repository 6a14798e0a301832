use ss_proxy::ws_proxy::{
    Frame, RelayAction, RelayEvent, RelayState, Side, WsProxy, WsProxyError,
};

fn relaying() -> WsProxy {
    let mut relay = WsProxy::new();
    assert_eq!(relay.on_event(RelayEvent::Connected), RelayAction::Nothing);
    assert_eq!(relay.state(), RelayState::Relaying);
    relay
}

#[test]
fn a_new_relay_is_connecting() {
    let relay = WsProxy::new();
    assert_eq!(relay.state(), RelayState::Connecting);
    assert!(!relay.is_closed());
}

#[test]
fn text_frame_is_echoed_once() {
    let mut relay = relaying();
    let sent = relay.on_event(RelayEvent::Received(Side::Client, Frame::Text("ping".to_string())));
    assert_eq!(sent, RelayAction::Forward(Side::Downstream, Frame::Text("ping".to_string())));
    let echoed =
        relay.on_event(RelayEvent::Received(Side::Downstream, Frame::Text("ping".to_string())));
    assert_eq!(echoed, RelayAction::Forward(Side::Client, Frame::Text("ping".to_string())));
    assert_eq!(relay.state(), RelayState::Relaying);
}

#[test]
fn frames_keep_their_kind_and_content() {
    let mut relay = relaying();
    let frames = vec![
        Frame::Text("Hello WebSocket!".to_string()),
        Frame::Text(String::new()),
        Frame::Binary(vec![0, 1, 2, 255]),
        Frame::Ping(vec![9]),
        Frame::Pong(vec![]),
    ];
    for frame in frames {
        assert_eq!(
            relay.on_event(RelayEvent::Received(Side::Client, frame.clone())),
            RelayAction::Forward(Side::Downstream, frame.clone())
        );
        assert_eq!(
            relay.on_event(RelayEvent::Received(Side::Downstream, frame.clone())),
            RelayAction::Forward(Side::Client, frame)
        );
    }
    assert!(!relay.is_closed());
}

#[test]
fn several_messages_keep_their_order() {
    let mut relay = relaying();
    for text in ["Message 1", "Message 2", "Message 3"] {
        assert_eq!(
            relay.on_event(RelayEvent::Received(Side::Client, Frame::Text(text.to_string()))),
            RelayAction::Forward(Side::Downstream, Frame::Text(text.to_string()))
        );
    }
}

#[test]
fn failed_connect_closes_at_once() {
    let mut relay = WsProxy::new();
    let action = relay.on_event(RelayEvent::ConnectFailed("connection refused".to_string()));
    assert_eq!(
        action,
        RelayAction::Abort(WsProxyError::ConnectionFailed("connection refused".to_string()))
    );
    assert!(relay.is_closed());
    assert_eq!(
        relay.on_event(RelayEvent::Received(Side::Client, Frame::Text("ping".to_string()))),
        RelayAction::Nothing
    );
    assert_eq!(relay.on_event(RelayEvent::Connected), RelayAction::Nothing);
    assert!(relay.is_closed());
}

#[test]
fn client_close_is_passed_on_and_ends_the_relay() {
    let mut relay = relaying();
    assert_eq!(
        relay.on_event(RelayEvent::Received(Side::Client, Frame::Close)),
        RelayAction::Forward(Side::Downstream, Frame::Close)
    );
    assert!(relay.is_closed());
}

#[test]
fn downstream_close_closes_the_client() {
    let mut relay = relaying();
    assert_eq!(
        relay.on_event(RelayEvent::Received(Side::Downstream, Frame::Close)),
        RelayAction::CloseClient
    );
    assert!(relay.is_closed());
}

#[test]
fn raw_frames_are_dropped() {
    let mut relay = relaying();
    assert_eq!(
        relay.on_event(RelayEvent::Received(Side::Downstream, Frame::Raw)),
        RelayAction::Nothing
    );
    assert_eq!(relay.on_event(RelayEvent::Received(Side::Client, Frame::Raw)), RelayAction::Nothing);
    assert_eq!(relay.state(), RelayState::Relaying);
}

#[test]
fn nothing_is_forwarded_after_either_direction_ends() {
    let endings = vec![
        RelayEvent::Received(Side::Client, Frame::Close),
        RelayEvent::Received(Side::Downstream, Frame::Close),
        RelayEvent::ReceiveFailed(Side::Client),
        RelayEvent::ReceiveFailed(Side::Downstream),
        RelayEvent::Ended(Side::Client),
        RelayEvent::Ended(Side::Downstream),
        RelayEvent::SendFailed(Side::Client),
        RelayEvent::SendFailed(Side::Downstream),
    ];
    for ending in endings {
        let mut relay = relaying();
        relay.on_event(ending);
        assert!(relay.is_closed());
        for side in [Side::Client, Side::Downstream] {
            assert_eq!(
                relay.on_event(RelayEvent::Received(side, Frame::Text("late".to_string()))),
                RelayAction::Nothing
            );
            assert_eq!(
                relay.on_event(RelayEvent::Received(side, Frame::Binary(vec![1]))),
                RelayAction::Nothing
            );
            assert_eq!(relay.on_event(RelayEvent::Received(side, Frame::Close)), RelayAction::Nothing);
        }
        assert!(relay.is_closed());
    }
}

#[test]
fn frames_wait_while_connecting() {
    let mut relay = WsProxy::new();
    assert_eq!(
        relay.on_event(RelayEvent::Received(Side::Client, Frame::Text("early".to_string()))),
        RelayAction::Nothing
    );
    assert_eq!(relay.state(), RelayState::Connecting);
    relay.on_event(RelayEvent::Ended(Side::Client));
    assert!(relay.is_closed());
}

#[test]
fn a_second_handshake_answer_is_ignored() {
    let mut relay = relaying();
    assert_eq!(relay.on_event(RelayEvent::Connected), RelayAction::Nothing);
    assert_eq!(
        relay.on_event(RelayEvent::ConnectFailed("late".to_string())),
        RelayAction::Nothing
    );
    assert_eq!(relay.state(), RelayState::Relaying);
}

#[test]
fn sides_are_opposite() {
    assert_eq!(Side::Client.opposite(), Side::Downstream);
    assert_eq!(Side::Downstream.opposite(), Side::Client);
}

#[test]
fn connection_error_text() {
    let error = WsProxyError::ConnectionFailed("refused".to_string());
    assert_eq!(error.message(), "Failed to connect to downstream WebSocket: refused");
}
