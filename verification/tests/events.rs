use sim2h::cache::AspectList;
use sim2h::connection_state::ConnectionState;
use sim2h::data_types::{AddressMapItem, SpaceData};
use sim2h::events::verify_payload;
use sim2h::keyed::TextMap;
use sim2h::wire_message::{ClientToLib3h, Lib3hToClient, Lib3hToClientResponse};
use sim2h::{Effect, SignedWireMessage, Sim2h, Sim2hError, StreamEvent, WireError, WireMessage};

fn text(s: &str) -> String {
    s.to_string()
}

fn signed(agent: &str, message: WireMessage) -> Result<SignedWireMessage, String> {
    Ok(SignedWireMessage { source: text(agent), verified: true, payload: Ok(message) })
}

fn join(space: &str, agent: &str) -> WireMessage {
    WireMessage::ClientToLib3h(ClientToLib3h::JoinSpace(SpaceData {
        request_id: text(""),
        space_address: text(space),
        agent_id: text(agent),
    }))
}

#[test]
fn payload_must_be_sound_in_every_layer() {
    assert_eq!(
        verify_payload(signed("alice", WireMessage::Ping)),
        Ok((text("alice"), WireMessage::Ping))
    );
    assert_eq!(verify_payload(Err(text("garbage"))), Err(Sim2hError::Payload(text("garbage"))));
    assert_eq!(
        verify_payload(Ok(SignedWireMessage {
            source: text("alice"),
            verified: false,
            payload: Ok(WireMessage::Ping),
        })),
        Err(Sim2hError::VerifyFailed)
    );
    assert_eq!(
        verify_payload(Ok(SignedWireMessage {
            source: text("alice"),
            verified: true,
            payload: Err(text("no message")),
        })),
        Err(Sim2hError::Payload(text("no message")))
    );
}

#[test]
fn poll_is_taken_in_event_by_event() {
    let mut s = Sim2h::new(text("wss://server"));
    let result = s.process(Ok(vec![
        StreamEvent::ReceivedData(text("a:1"), signed("alice", join("S", "alice"))),
        StreamEvent::IncomingConnectionEstablished(text("a:1")),
        StreamEvent::ReceivedData(text("a:1"), Err(text("garbage"))),
        StreamEvent::ErrorOccured(text("a:1"), text("hiccup")),
        StreamEvent::ConnectResult(text("a:1"), text("net")),
        StreamEvent::ReceivedData(text("a:1"), signed("alice", join("S", "alice"))),
        StreamEvent::ReceivedData(text("a:1"), signed("alice", WireMessage::Ping)),
    ]));
    assert_eq!(result, Ok(()));
    assert_eq!(
        s.get_connection(&text("a:1")),
        Some(ConnectionState::Joined(text("S"), text("alice")))
    );
    let effects = s.take_outbox();
    assert_eq!(effects.len(), 5);
    assert!(matches!(effects[0], Effect::LogIn { .. }));
    assert!(matches!(effects[1], Effect::LogIn { .. }));
    assert!(matches!(effects[2], Effect::Send { logged: true, .. }));
    assert!(matches!(effects[3], Effect::Send { logged: true, .. }));
    assert!(matches!(effects[4], Effect::Send { message: WireMessage::Pong, .. }));
    assert_eq!(s.process(Ok(vec![StreamEvent::ConnectionClosed(text("a:1"))])), Ok(()));
    assert_eq!(s.get_connection(&text("a:1")), None);
    assert_eq!(s.lookup_joined(&text("S"), &text("alice")), None);
}

#[test]
fn poll_is_taken_in_up_to_what_cannot_be_served() {
    let mut s = Sim2h::new(text("wss://server"));
    let forged = WireMessage::Lib3hToClient(Lib3hToClient::Other(text("?")));
    let (results, left) = s.process_accepted(vec![
        StreamEvent::IncomingConnectionEstablished(text("a:1")),
        StreamEvent::ReceivedData(text("a:1"), signed("bob", join("S", "alice"))),
        StreamEvent::ReceivedData(text("a:1"), Err(text("garbage"))),
        StreamEvent::ReceivedData(text("a:1"), signed("alice", join("S", "alice"))),
        StreamEvent::ReceivedData(text("a:1"), signed("alice", forged.clone())),
        StreamEvent::ConnectionClosed(text("a:1")),
    ]);
    assert_eq!(
        results,
        vec![
            Ok(()),
            Err(Sim2hError::SignerMismatch),
            Err(Sim2hError::Payload(text("garbage"))),
            Ok(()),
        ]
    );
    let event = StreamEvent::ReceivedData(text("a:1"), signed("alice", forged));
    assert_eq!(left, Some(event));
    assert_eq!(s.lookup_joined(&text("S"), &text("alice")), Some(text("a:1")));
    assert_eq!(s.take_outbox().len(), 4);
    let closed = StreamEvent::ConnectionClosed(text("a:1"));
    assert_eq!(s.process_accepted(vec![closed]), (vec![Ok(())], None));
    assert_eq!(s.lookup_joined(&text("S"), &text("alice")), None);
}

#[test]
fn failed_poll_is_reported() {
    let mut s = Sim2h::new(text("wss://server"));
    assert_eq!(s.process(Err(text("down"))), Err(Sim2hError::Transport(text("down"))));
    assert_eq!(s.take_outbox(), vec![]);
}

#[test]
fn event_is_answered_for() {
    let mut s = Sim2h::new(text("wss://server"));
    assert_eq!(s.handle_event(StreamEvent::IncomingConnectionEstablished(text("a:1"))), Ok(()));
    let event = StreamEvent::ReceivedData(text("a:1"), signed("bob", join("S", "alice")));
    assert!(s.accepts(&event));
    assert_eq!(s.handle_event(event), Err(Sim2hError::SignerMismatch));
    let event = StreamEvent::ReceivedData(text("a:1"), signed("alice", join("S", "alice")));
    assert_eq!(s.handle_event(event), Ok(()));
    let forged = WireMessage::Lib3hToClient(Lib3hToClient::Other(text("?")));
    let event = StreamEvent::ReceivedData(text("a:1"), signed("alice", forged));
    assert!(!s.accepts(&event));
    assert!(s.accepts(&StreamEvent::ReceivedData(text("a:1"), Err(text("garbage")))));
    assert!(s.accepts(&StreamEvent::ConnectionClosed(text("a:1"))));
}

#[test]
fn polls_can_be_counted_for_ever() {
    let mut s = Sim2h::new(text("wss://server"));
    for _ in 0..130000 {
        s.tick();
    }
    assert_eq!(s.process(Ok(vec![])), Ok(()));
}

#[test]
fn errors_have_texts() {
    let cases = vec![
        (Sim2hError::VerifyFailed, "message verification failed"),
        (Sim2hError::SignerMismatch, "message signer mismatch"),
        (Sim2hError::SpaceMismatch, "space/agent id mismatch"),
        (Sim2hError::NoConnection(text("a:1")), "no connection for a:1"),
        (Sim2hError::NotInLimbo(text("a:1")), "no agent found in limbo at a:1 "),
        (Sim2hError::NotJoined(text("a:1")), "no joined agent found at a:1 "),
        (Sim2hError::UnvalidatedProxyAgent(text("bob")), "unvalidated proxy agent bob"),
        (
            Sim2hError::JoinNotProxied,
            "join message should have been processed elsewhere and can't be proxied",
        ),
        (Sim2hError::NotImplemented(WireMessage::Pong), "Message not implemented: Pong"),
        (
            Sim2hError::NotImplemented(WireMessage::Error(WireError::Other(text("x")))),
            "Message not implemented: Err(x)",
        ),
        (
            Sim2hError::NotImplemented(WireMessage::Error(WireError::MessageWhileInLimbo)),
            "Message not implemented: Err(MessageWhileInLimbo)",
        ),
        (
            Sim2hError::NotImplemented(WireMessage::ClientToLib3h(ClientToLib3h::Other(text(
                "FetchEntry(x)",
            )))),
            "Message not implemented: ClientToLib3h(FetchEntry(x))",
        ),
        (
            Sim2hError::NotImplemented(WireMessage::ClientToLib3hResponse(text("y"))),
            "Message not implemented: ClientToLib3hResponse(y)",
        ),
        (
            Sim2hError::NotImplemented(WireMessage::Lib3hToClient(Lib3hToClient::Other(text(
                "z",
            )))),
            "Message not implemented: Lib3hToClient(z)",
        ),
        (
            Sim2hError::NotImplemented(WireMessage::Lib3hToClientResponse(
                Lib3hToClientResponse::Other(text("HandleDropEntryResult")),
            )),
            "Message not implemented: Lib3hToClientResponse(HandleDropEntryResult)",
        ),
        (Sim2hError::NoSuchSpace, "No such space"),
        (Sim2hError::Payload(text("garbage")), "garbage"),
        (Sim2hError::Transport(text("down")), "down"),
    ];
    for (error, expected) in cases {
        assert_eq!(error.text(), expected);
    }
}

#[test]
fn aspect_lists_differ() {
    let item = |e: &str, aspects: Vec<String>| AddressMapItem {
        entry_address: text(e),
        aspect_addresses: aspects,
    };
    let one = AspectList::from(&vec![
        item("E", vec![text("x"), text("y"), text("x")]),
        item("F", vec![text("x")]),
        item("E", vec![text("z"), text("y")]),
        item("G", vec![]),
    ]);
    assert_eq!(one.entry_addresses(), vec![text("E"), text("F")]);
    assert_eq!(one.per_entry(&text("E")), Some(vec![text("x"), text("y"), text("z")]));
    assert_eq!(one.per_entry(&text("G")), None);
    let mut other = AspectList::new();
    other.add(text("E"), text("y"));
    other.add(text("F"), text("x"));
    other.add(text("H"), text("x"));
    let missing = one.diff(&other);
    assert_eq!(missing.entry_addresses(), vec![text("E")]);
    assert_eq!(missing.per_entry(&text("E")), Some(vec![text("x"), text("z")]));
    assert!(other.contains(&text("H"), &text("x")));
    assert!(!other.contains(&text("H"), &text("y")));
}

#[test]
fn text_map_keeps_places() {
    let mut map: TextMap<String> = TextMap::new();
    assert_eq!(map.insert(text("a"), text("1")), None);
    assert_eq!(map.insert(text("b"), text("2")), None);
    assert_eq!(map.insert(text("a"), text("3")), Some(text("1")));
    assert_eq!(map.len(), 2);
    assert_eq!(map.key_at(0), "a");
    assert_eq!(map.value_at(0), "3");
    *map.get_mut(&text("b")) = text("4");
    assert_eq!(map.get(&text("b")), Some(&text("4")));
    assert_eq!(map.remove(&text("a")), Some(text("3")));
    assert!(!map.contains_key(&text("a")));
    assert_eq!(map.remove(&text("a")), None);
    assert_eq!(map.key_at(0), "b");
}
