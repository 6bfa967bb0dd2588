use sim2h::connection_state::ConnectionState;
use sim2h::data_types::{
    AddressMapItem, DirectMessageData, EntryAspectData, EntryData, EntryListData, FetchEntryData,
    FetchEntryResultData, GetListData, ProvidedEntryData, SpaceData, StoreEntryAspectData,
};
use sim2h::wire_message::{ClientToLib3h, Lib3hToClient, Lib3hToClientResponse};
use sim2h::{Effect, Sim2h, Sim2hError, WireError, WireMessage};

fn text(s: &str) -> String {
    s.to_string()
}

fn server() -> Sim2h {
    Sim2h::new(text("wss://server:9000"))
}

fn space_data(space: &str, agent: &str) -> SpaceData {
    SpaceData { request_id: text("r"), space_address: text(space), agent_id: text(agent) }
}

fn join(space: &str, agent: &str) -> WireMessage {
    WireMessage::ClientToLib3h(ClientToLib3h::JoinSpace(space_data(space, agent)))
}

fn leave(space: &str, agent: &str) -> WireMessage {
    WireMessage::ClientToLib3h(ClientToLib3h::LeaveSpace(space_data(space, agent)))
}

fn enter(s: &mut Sim2h, uri: &str, space: &str, agent: &str) {
    assert_eq!(s.handle_incoming_connect(text(uri)), Ok(true));
    assert_eq!(s.handle_message(&text(uri), join(space, agent), &text(agent)), Ok(()));
    s.take_outbox();
}

fn sent(agent: &str, uri: &str, message: WireMessage) -> Effect {
    Effect::Send { agent: text(agent), uri: text(uri), message, logged: true }
}

fn log_in(agent: &str, uri: &str, message: WireMessage) -> Effect {
    Effect::LogIn { agent: text(agent), uri: text(uri), message }
}

fn list_request(space: &str, agent: &str) -> GetListData {
    GetListData {
        space_address: text(space),
        provider_agent_id: text(agent),
        request_id: text(""),
    }
}

fn direct(space: &str, from: &str, to: &str) -> DirectMessageData {
    DirectMessageData {
        space_address: text(space),
        request_id: text("dm"),
        to_agent_id: text(to),
        from_agent_id: text(from),
        content: vec![1, 2, 3],
    }
}

fn aspect(address: &str) -> EntryAspectData {
    EntryAspectData {
        aspect_address: text(address),
        type_hint: text("hint"),
        aspect: vec![7],
        publish_ts: 42,
    }
}

fn entry(address: &str, aspects: &[&str]) -> EntryData {
    let mut aspect_list = Vec::new();
    for a in aspects {
        aspect_list.push(aspect(a));
    }
    EntryData { entry_address: text(address), aspect_list }
}

fn publish(space: &str, agent: &str, e: EntryData) -> WireMessage {
    WireMessage::ClientToLib3h(ClientToLib3h::PublishEntry(ProvidedEntryData {
        space_address: text(space),
        provider_agent_id: text(agent),
        entry: e,
    }))
}

fn store(space: &str, provider: &str, e: &str, a: &str) -> WireMessage {
    WireMessage::Lib3hToClient(Lib3hToClient::HandleStoreEntryAspect(StoreEntryAspectData {
        request_id: text(""),
        space_address: text(space),
        provider_agent_id: text(provider),
        entry_address: text(e),
        entry_aspect: aspect(a),
    }))
}

fn fetch(space: &str, provider: &str, request: &str, e: &str, aspects: &[&str]) -> WireMessage {
    let mut list = Vec::new();
    for a in aspects {
        list.push(text(a));
    }
    WireMessage::Lib3hToClient(Lib3hToClient::HandleFetchEntry(FetchEntryData {
        space_address: text(space),
        entry_address: text(e),
        request_id: text(request),
        provider_agent_id: text(provider),
        aspect_address_list: Some(list),
    }))
}

fn list_data(space: &str, agent: &str, items: &[(&str, &[&str])]) -> EntryListData {
    let mut address_map = Vec::new();
    for (e, aspects) in items {
        let mut aspect_addresses = Vec::new();
        for a in aspects.iter() {
            aspect_addresses.push(text(a));
        }
        address_map.push(AddressMapItem { entry_address: text(e), aspect_addresses });
    }
    EntryListData {
        space_address: text(space),
        provider_agent_id: text(agent),
        request_id: text(""),
        address_map,
    }
}

fn authoring(space: &str, agent: &str, items: &[(&str, &[&str])]) -> WireMessage {
    WireMessage::Lib3hToClientResponse(Lib3hToClientResponse::HandleGetAuthoringEntryListResult(
        list_data(space, agent, items),
    ))
}

fn gossiping(space: &str, agent: &str, items: &[(&str, &[&str])]) -> WireMessage {
    WireMessage::Lib3hToClientResponse(Lib3hToClientResponse::HandleGetGossipingEntryListResult(
        list_data(space, agent, items),
    ))
}

fn fetched(space: &str, agent: &str, request: &str, e: EntryData) -> WireMessage {
    WireMessage::Lib3hToClientResponse(Lib3hToClientResponse::HandleFetchEntryResult(
        FetchEntryResultData {
            space_address: text(space),
            provider_agent_id: text(agent),
            request_id: text(request),
            entry: e,
        },
    ))
}

fn effects_of(s: &mut Sim2h, uri: &str, agent: &str, message: WireMessage) -> Vec<Effect> {
    assert!(s.accepts_message(&text(uri), &message, &text(agent)));
    assert_eq!(s.handle_message(&text(uri), message, &text(agent)), Ok(()));
    let mut effects = s.take_outbox();
    effects.remove(0);
    effects
}

fn error_of(s: &mut Sim2h, uri: &str, agent: &str, message: WireMessage) -> Sim2hError {
    assert!(s.accepts_message(&text(uri), &message, &text(agent)));
    let copy = message.clone();
    let result = s.handle_message(&text(uri), message, &text(agent));
    assert_eq!(s.take_outbox(), vec![log_in(agent, uri, copy)]);
    result.unwrap_err()
}

#[test]
fn new_server_knows_nobody() {
    let mut s = server();
    assert_eq!(s.bound_uri, Some(text("wss://server:9000")));
    assert_eq!(s.get_connection(&text("a:1")), None);
    assert_eq!(s.lookup_joined(&text("S"), &text("alice")), None);
    assert_eq!(s.take_outbox(), vec![]);
}

#[test]
fn ping_is_answered_by_an_unlogged_pong() {
    let mut s = server();
    let result = s.handle_message(&text("a:1"), WireMessage::Ping, &text("alice"));
    assert_eq!(result, Ok(()));
    assert_eq!(
        s.take_outbox(),
        vec![Effect::Send {
            agent: text("alice"),
            uri: text("a:1"),
            message: WireMessage::Pong,
            logged: false,
        }]
    );
}

#[test]
fn message_without_connection_is_refused() {
    let mut s = server();
    let error = error_of(&mut s, "a:1", "alice", join("S", "alice"));
    assert_eq!(error, Sim2hError::NoConnection(text("a:1")));
}

#[test]
fn message_in_limbo_waits_and_is_answered() {
    let mut s = server();
    s.handle_incoming_connect(text("a:1")).unwrap();
    assert_eq!(s.get_connection(&text("a:1")), Some(ConnectionState::Limbo(vec![])));
    let message = publish("S", "alice", entry("E", &["x"]));
    let effects = effects_of(&mut s, "a:1", "alice", message.clone());
    assert_eq!(
        effects,
        vec![sent("alice", "a:1", WireMessage::Error(WireError::MessageWhileInLimbo))]
    );
    assert_eq!(s.get_connection(&text("a:1")), Some(ConnectionState::Limbo(vec![message])));
    assert_eq!(s.lookup_joined(&text("S"), &text("alice")), None);
}

#[test]
fn joining_asks_for_both_lists() {
    let mut s = server();
    s.handle_incoming_connect(text("a:1")).unwrap();
    let effects = effects_of(&mut s, "a:1", "alice", join("S", "alice"));
    assert_eq!(
        effects,
        vec![
            sent(
                "alice",
                "a:1",
                WireMessage::Lib3hToClient(Lib3hToClient::HandleGetAuthoringEntryList(
                    list_request("S", "alice")
                ))
            ),
            sent(
                "alice",
                "a:1",
                WireMessage::Lib3hToClient(Lib3hToClient::HandleGetGossipingEntryList(
                    list_request("S", "alice")
                ))
            ),
        ]
    );
    assert_eq!(
        s.get_connection(&text("a:1")),
        Some(ConnectionState::Joined(text("S"), text("alice")))
    );
    assert_eq!(s.lookup_joined(&text("S"), &text("alice")), Some(text("a:1")));
    assert_eq!(s.lookup_joined(&text("T"), &text("alice")), None);
}

#[test]
fn joining_serves_what_waited_in_order() {
    let mut s = server();
    enter(&mut s, "b:1", "S", "bob");
    s.handle_incoming_connect(text("a:1")).unwrap();
    let first = publish("S", "alice", entry("E", &["x"]));
    let second = WireMessage::ClientToLib3h(ClientToLib3h::SendDirectMessage(direct(
        "S", "alice", "bob",
    )));
    effects_of(&mut s, "a:1", "alice", first.clone());
    effects_of(&mut s, "a:1", "alice", second.clone());
    let effects = effects_of(&mut s, "a:1", "alice", join("S", "alice"));
    assert_eq!(
        effects[2..],
        [
            log_in("alice", "a:1", first),
            sent("bob", "b:1", store("S", "alice", "E", "x")),
            log_in("alice", "a:1", second),
            sent(
                "bob",
                "b:1",
                WireMessage::Lib3hToClient(Lib3hToClient::HandleSendDirectMessage(direct(
                    "S", "alice", "bob"
                )))
            ),
        ]
    );
}

#[test]
fn message_after_a_waiting_leave_finds_no_connection() {
    let mut s = server();
    s.handle_incoming_connect(text("a:1")).unwrap();
    effects_of(&mut s, "a:1", "alice", leave("S", "alice"));
    let late = WireMessage::ClientToLib3hResponse(text("?"));
    effects_of(&mut s, "a:1", "alice", late.clone());
    let effects = effects_of(&mut s, "a:1", "alice", join("S", "alice"));
    assert_eq!(
        effects[2..],
        [log_in("alice", "a:1", leave("S", "alice")), log_in("alice", "a:1", late)]
    );
    assert_eq!(s.get_connection(&text("a:1")), None);
    assert_eq!(s.lookup_joined(&text("S"), &text("alice")), None);
}

#[test]
fn joining_for_another_agent_is_refused() {
    let mut s = server();
    s.handle_incoming_connect(text("a:1")).unwrap();
    let error = error_of(&mut s, "a:1", "mallory", join("S", "alice"));
    assert_eq!(error, Sim2hError::SignerMismatch);
    assert_eq!(s.get_connection(&text("a:1")), Some(ConnectionState::Limbo(vec![])));
}

#[test]
fn foreign_signer_is_refused() {
    let mut s = server();
    enter(&mut s, "a:1", "S", "alice");
    let error = error_of(&mut s, "a:1", "mallory", leave("S", "alice"));
    assert_eq!(error, Sim2hError::SignerMismatch);
    assert_eq!(s.lookup_joined(&text("S"), &text("alice")), Some(text("a:1")));
}

#[test]
fn joining_twice_is_refused() {
    let mut s = server();
    enter(&mut s, "a:1", "S", "alice");
    let error = error_of(&mut s, "a:1", "alice", join("T", "alice"));
    assert_eq!(error, Sim2hError::JoinNotProxied);
    assert_eq!(
        s.join(&text("a:1"), &space_data("T", "alice")),
        Err(Sim2hError::NotInLimbo(text("a:1")))
    );
}

#[test]
fn leaving_ends_the_connection() {
    let mut s = server();
    enter(&mut s, "a:1", "S", "alice");
    enter(&mut s, "b:1", "S", "bob");
    assert_eq!(effects_of(&mut s, "a:1", "alice", leave("S", "alice")), vec![]);
    assert_eq!(s.get_connection(&text("a:1")), None);
    assert_eq!(s.lookup_joined(&text("S"), &text("alice")), None);
    assert_eq!(s.lookup_joined(&text("S"), &text("bob")), Some(text("b:1")));
    assert_eq!(
        s.leave(&text("a:1"), &space_data("S", "alice")),
        Err(Sim2hError::NotJoined(text("a:1")))
    );
}

#[test]
fn leaving_another_space_is_refused() {
    let mut s = server();
    enter(&mut s, "a:1", "S", "alice");
    let error = error_of(&mut s, "a:1", "alice", leave("T", "alice"));
    assert_eq!(error, Sim2hError::SpaceMismatch);
    let error = error_of(&mut s, "a:1", "alice", leave("S", "bob"));
    assert_eq!(error, Sim2hError::SpaceMismatch);
}

#[test]
fn direct_message_and_its_answer_arrive() {
    let mut s = server();
    enter(&mut s, "a:1", "S", "alice");
    enter(&mut s, "b:1", "S", "bob");
    let request = direct("S", "alice", "bob");
    let message = WireMessage::ClientToLib3h(ClientToLib3h::SendDirectMessage(request.clone()));
    assert_eq!(
        effects_of(&mut s, "a:1", "alice", message),
        vec![sent(
            "bob",
            "b:1",
            WireMessage::Lib3hToClient(Lib3hToClient::HandleSendDirectMessage(request))
        )]
    );
    let answer = direct("S", "bob", "alice");
    let message = WireMessage::Lib3hToClientResponse(
        Lib3hToClientResponse::HandleSendDirectMessageResult(answer.clone()),
    );
    assert_eq!(
        effects_of(&mut s, "b:1", "bob", message),
        vec![sent(
            "alice",
            "a:1",
            WireMessage::Lib3hToClient(Lib3hToClient::SendDirectMessageResult(answer))
        )]
    );
}

#[test]
fn direct_message_stays_in_its_space() {
    let mut s = server();
    enter(&mut s, "a:1", "S", "alice");
    enter(&mut s, "b:1", "T", "bob");
    let message =
        WireMessage::ClientToLib3h(ClientToLib3h::SendDirectMessage(direct("S", "alice", "bob")));
    let error = error_of(&mut s, "a:1", "alice", message);
    assert_eq!(error, Sim2hError::UnvalidatedProxyAgent(text("bob")));
    let message =
        WireMessage::ClientToLib3h(ClientToLib3h::SendDirectMessage(direct("T", "alice", "bob")));
    assert_eq!(error_of(&mut s, "a:1", "alice", message), Sim2hError::SpaceMismatch);
    let message = WireMessage::Lib3hToClientResponse(
        Lib3hToClientResponse::HandleSendDirectMessageResult(direct("S", "eve", "alice")),
    );
    assert_eq!(error_of(&mut s, "a:1", "alice", message), Sim2hError::SpaceMismatch);
}

#[test]
fn published_entry_goes_to_all_others() {
    let mut s = server();
    enter(&mut s, "a:1", "S", "alice");
    enter(&mut s, "b:1", "S", "bob");
    enter(&mut s, "c:1", "S", "carol");
    enter(&mut s, "d:1", "T", "dave");
    let message = publish("S", "bob", entry("E", &["x", "y"]));
    assert_eq!(
        effects_of(&mut s, "b:1", "bob", message),
        vec![
            sent("alice", "a:1", store("S", "bob", "E", "x")),
            sent("carol", "c:1", store("S", "bob", "E", "x")),
            sent("alice", "a:1", store("S", "bob", "E", "y")),
            sent("carol", "c:1", store("S", "bob", "E", "y")),
        ]
    );
    let error = error_of(&mut s, "b:1", "bob", publish("S", "alice", entry("E", &["x"])));
    assert_eq!(error, Sim2hError::SpaceMismatch);
    let error = error_of(&mut s, "b:1", "bob", publish("T", "bob", entry("E", &["x"])));
    assert_eq!(error, Sim2hError::SpaceMismatch);
}

#[test]
fn author_is_asked_for_what_the_space_lacks() {
    let mut s = server();
    enter(&mut s, "a:1", "S", "alice");
    effects_of(&mut s, "a:1", "alice", publish("S", "alice", entry("E", &["x"])));
    let list = authoring("S", "alice", &[("E", &["x", "y", "z"]), ("F", &["x"]), ("G", &[])]);
    assert_eq!(
        effects_of(&mut s, "a:1", "alice", list.clone()),
        vec![
            sent("alice", "a:1", fetch("S", "alice", "", "E", &["y", "z"])),
            sent("alice", "a:1", fetch("S", "alice", "", "F", &["x"])),
        ]
    );
    let answer = fetched("S", "alice", "", entry("E", &["y", "z"]));
    assert_eq!(effects_of(&mut s, "a:1", "alice", answer), vec![]);
    assert_eq!(
        effects_of(&mut s, "a:1", "alice", list),
        vec![sent("alice", "a:1", fetch("S", "alice", "", "F", &["x"]))]
    );
    let error = error_of(&mut s, "a:1", "alice", authoring("T", "alice", &[]));
    assert_eq!(error, Sim2hError::SpaceMismatch);
}

#[test]
fn publishing_twice_is_publishing_once() {
    let mut s = server();
    enter(&mut s, "a:1", "S", "alice");
    let twice = publish("S", "alice", entry("E", &["x", "x"]));
    effects_of(&mut s, "a:1", "alice", twice.clone());
    effects_of(&mut s, "a:1", "alice", twice);
    enter(&mut s, "b:1", "S", "bob");
    assert_eq!(
        effects_of(&mut s, "b:1", "bob", gossiping("S", "bob", &[])),
        vec![sent("alice", "a:1", fetch("S", "alice", "bob", "E", &["x"]))]
    );
}

#[test]
fn lone_agent_gets_no_help() {
    let mut s = server();
    enter(&mut s, "a:1", "S", "alice");
    effects_of(&mut s, "a:1", "alice", publish("S", "alice", entry("E", &["x"])));
    assert_eq!(effects_of(&mut s, "a:1", "alice", gossiping("S", "alice", &[])), vec![]);
    let error = error_of(&mut s, "a:1", "alice", gossiping("S", "bob", &[]));
    assert_eq!(error, Sim2hError::SpaceMismatch);
}

#[test]
fn some_other_agent_helps_out() {
    let mut seen_alice = false;
    let mut seen_carol = false;
    for _ in 0..200 {
        let mut s = server();
        enter(&mut s, "a:1", "S", "alice");
        enter(&mut s, "b:1", "S", "bob");
        enter(&mut s, "c:1", "S", "carol");
        effects_of(&mut s, "a:1", "alice", publish("S", "alice", entry("E", &["x", "y"])));
        let effects =
            effects_of(&mut s, "b:1", "bob", gossiping("S", "bob", &[("E", &["y"])]));
        if effects == vec![sent("alice", "a:1", fetch("S", "alice", "bob", "E", &["x"]))] {
            seen_alice = true;
        } else {
            assert_eq!(
                effects,
                vec![sent("carol", "c:1", fetch("S", "carol", "bob", "E", &["x"]))]
            );
            seen_carol = true;
        }
    }
    assert!(seen_alice && seen_carol);
}

#[test]
fn chosen_agent_is_asked_for_the_missing() {
    let mut s = server();
    enter(&mut s, "a:1", "S", "alice");
    enter(&mut s, "b:1", "S", "bob");
    enter(&mut s, "c:1", "S", "carol");
    effects_of(&mut s, "a:1", "alice", publish("S", "alice", entry("E", &["x", "y"])));
    effects_of(&mut s, "a:1", "alice", publish("S", "alice", entry("F", &["z"])));
    let held = list_data("S", "bob", &[("E", &["y"])]).address_map;
    s.fetch_missing(&text("S"), &text("bob"), &held, 1);
    assert_eq!(
        s.take_outbox(),
        vec![
            sent("carol", "c:1", fetch("S", "carol", "bob", "E", &["x"])),
            sent("carol", "c:1", fetch("S", "carol", "bob", "F", &["z"])),
        ]
    );
}

#[test]
fn answer_goes_to_the_agent_that_lacked_it() {
    let mut s = server();
    enter(&mut s, "a:1", "S", "alice");
    enter(&mut s, "b:1", "S", "bob");
    enter(&mut s, "c:1", "S", "carol");
    let answer = fetched("S", "carol", "bob", entry("E", &["x", "y"]));
    assert_eq!(
        effects_of(&mut s, "c:1", "carol", answer),
        vec![
            sent("bob", "b:1", store("S", "carol", "E", "x")),
            sent("bob", "b:1", store("S", "carol", "E", "y")),
        ]
    );
    let answer = fetched("S", "carol", "nobody", entry("E", &["x"]));
    assert_eq!(effects_of(&mut s, "c:1", "carol", answer), vec![]);
    let error = error_of(&mut s, "c:1", "carol", fetched("S", "bob", "", entry("E", &[])));
    assert_eq!(error, Sim2hError::SpaceMismatch);
}

#[test]
fn answer_without_request_goes_to_all_others() {
    let mut s = server();
    enter(&mut s, "a:1", "S", "alice");
    enter(&mut s, "b:1", "S", "bob");
    let answer = fetched("S", "bob", "", entry("E", &["x"]));
    assert_eq!(
        effects_of(&mut s, "b:1", "bob", answer),
        vec![sent("alice", "a:1", store("S", "bob", "E", "x"))]
    );
}

#[test]
fn message_without_use_is_refused() {
    let mut s = server();
    enter(&mut s, "a:1", "S", "alice");
    for message in [
        WireMessage::Pong,
        WireMessage::ClientToLib3h(ClientToLib3h::Other(text("?"))),
        WireMessage::Lib3hToClientResponse(Lib3hToClientResponse::Other(text("?"))),
        WireMessage::Error(WireError::MessageWhileInLimbo),
    ] {
        let error = error_of(&mut s, "a:1", "alice", message.clone());
        assert_eq!(error, Sim2hError::NotImplemented(message));
    }
}

#[test]
fn server_messages_are_not_accepted_of_clients() {
    let mut s = server();
    enter(&mut s, "a:1", "S", "alice");
    let (uri, alice) = (text("a:1"), text("alice"));
    let forged = WireMessage::Lib3hToClient(Lib3hToClient::Other(text("?")));
    assert!(!s.accepts_message(&uri, &forged, &alice));
    assert!(s.accepts_message(&uri, &forged, &text("mallory")));
    assert!(s.accepts_message(&text("b:1"), &forged, &alice));
    let forged = WireMessage::ClientToLib3hResponse(text("?"));
    assert!(!s.accepts_message(&uri, &forged, &alice));
    s.handle_incoming_connect(uri.clone()).unwrap();
    effects_of(&mut s, "a:1", "alice", forged);
    assert!(!s.accepts_message(&uri, &join("S", "alice"), &alice));
    assert!(s.accepts_message(&uri, &join("S", "alice"), &text("mallory")));
}

#[test]
fn report_from_a_deserted_space_is_not_accepted() {
    let mut s = server();
    enter(&mut s, "a:1", "S", "alice");
    enter(&mut s, "a:2", "S", "alice");
    assert_eq!(s.lookup_joined(&text("S"), &text("alice")), Some(text("a:2")));
    s.disconnect(&text("a:1"));
    assert_eq!(s.lookup_joined(&text("S"), &text("alice")), None);
    let report = gossiping("S", "alice", &[]);
    assert!(!s.accepts_message(&text("a:2"), &report, &text("alice")));
    assert!(s.accepts_message(&text("a:2"), &gossiping("T", "alice", &[]), &text("alice")));
}

#[test]
fn new_connection_starts_in_limbo_again() {
    let mut s = server();
    enter(&mut s, "a:1", "S", "alice");
    s.handle_incoming_connect(text("a:1")).unwrap();
    assert_eq!(s.get_connection(&text("a:1")), Some(ConnectionState::Limbo(vec![])));
    assert_eq!(s.lookup_joined(&text("S"), &text("alice")), Some(text("a:1")));
}

#[test]
fn disconnecting_after_a_second_connect_removes_the_uri() {
    let mut s = server();
    let uri = text("ws://a:1");
    let data = space_data("S", "A");
    assert_eq!(s.handle_incoming_connect(uri.clone()), Ok(true));
    assert_eq!(s.join(&uri, &data), Ok(()));
    assert_eq!(s.handle_incoming_connect(uri.clone()), Ok(true));
    s.disconnect(&uri);
    assert_eq!(s.get_connection(&uri), None);
    assert_eq!(s.lookup_joined(&text("S"), &text("A")), None);
}

#[test]
fn disconnecting_removes_the_uri_from_every_space() {
    let mut s = server();
    enter(&mut s, "b:1", "S", "bob");
    enter(&mut s, "a:1", "S", "alice");
    enter(&mut s, "a:1", "S", "anna");
    enter(&mut s, "c:1", "S", "carol");
    enter(&mut s, "a:1", "T", "alice");
    enter(&mut s, "b:1", "T", "bob");
    assert_eq!(s.lookup_joined(&text("S"), &text("alice")), Some(text("a:1")));
    assert_eq!(effects_of(&mut s, "a:1", "alice", leave("T", "alice")), vec![]);
    for agent in ["alice", "anna"] {
        assert_eq!(s.lookup_joined(&text("S"), &text(agent)), None);
        assert_eq!(s.lookup_joined(&text("T"), &text(agent)), None);
    }
    let message = store("S", "x", "E", "y");
    assert_eq!(s.broadcast(text("S"), &message, None), Ok(()));
    assert_eq!(
        s.take_outbox(),
        vec![sent("bob", "b:1", message.clone()), sent("carol", "c:1", message)]
    );
    assert_eq!(s.lookup_joined(&text("T"), &text("bob")), Some(text("b:1")));
}

#[test]
fn others_at_a_connection_stay_while_it_stands() {
    let mut s = server();
    enter(&mut s, "a:1", "S", "anna");
    enter(&mut s, "a:1", "S", "alice");
    let message = publish("S", "alice", entry("E", &["x"]));
    let effects = effects_of(&mut s, "a:1", "alice", message);
    assert_eq!(effects, vec![sent("anna", "a:1", store("S", "alice", "E", "x"))]);
    assert_eq!(s.lookup_joined(&text("S"), &text("anna")), Some(text("a:1")));
    effects_of(&mut s, "a:1", "alice", leave("S", "alice"));
    assert_eq!(s.lookup_joined(&text("S"), &text("anna")), None);
}

#[test]
fn message_moves_its_signer_only() {
    let mut s = server();
    enter(&mut s, "b:1", "S", "bob");
    enter(&mut s, "a:1", "S", "alice");
    enter(&mut s, "a:2", "S", "alice");
    assert_eq!(s.lookup_joined(&text("S"), &text("alice")), Some(text("a:2")));
    effects_of(&mut s, "a:2", "alice", leave("S", "alice"));
    assert_eq!(s.lookup_joined(&text("S"), &text("alice")), None);
    assert_eq!(s.lookup_joined(&text("S"), &text("bob")), Some(text("b:1")));
}

#[test]
fn broadcast_reaches_a_space() {
    let mut s = server();
    assert_eq!(
        s.broadcast(text("S"), &WireMessage::Ping, None),
        Err(Sim2hError::NoSuchSpace)
    );
    assert_eq!(s.take_outbox(), vec![]);
    enter(&mut s, "a:1", "S", "alice");
    enter(&mut s, "b:1", "S", "bob");
    let message = store("S", "x", "E", "y");
    assert_eq!(s.broadcast(text("S"), &message, None), Ok(()));
    assert_eq!(
        s.take_outbox(),
        vec![sent("alice", "a:1", message.clone()), sent("bob", "b:1", message.clone())]
    );
    assert_eq!(s.broadcast(text("S"), &message, Some(&text("alice"))), Ok(()));
    assert_eq!(s.take_outbox(), vec![sent("bob", "b:1", message)]);
}

#[test]
fn published_entry_stays_in_its_space() {
    let mut s = server();
    enter(&mut s, "wss://a", "space", "alice");
    enter(&mut s, "wss://b", "space", "bob");
    enter(&mut s, "wss://c", "other", "carol");
    let message = publish("space", "alice", entry("e", &["x"]));
    let effects = effects_of(&mut s, "wss://a", "alice", message);
    assert_eq!(effects, [sent("bob", "wss://b", store("space", "alice", "e", "x"))]);
    let message = authoring("other", "carol", &[("e", &["x"])]);
    let effects = effects_of(&mut s, "wss://c", "carol", message);
    assert_eq!(effects, [sent("carol", "wss://c", fetch("other", "carol", "", "e", &["x"]))]);
}

#[test]
fn what_waited_is_served_within_the_space_that_was_joined() {
    let mut s = server();
    enter(&mut s, "wss://b", "space", "bob");
    enter(&mut s, "wss://c", "other", "carol");
    assert_eq!(s.handle_incoming_connect(text("wss://a")), Ok(true));
    let uri = text("wss://a");
    let alice = text("alice");
    let message = publish("space", "alice", entry("e", &["x"]));
    assert_eq!(s.handle_message(&uri, message, &alice), Ok(()));
    let message = publish("other", "alice", entry("f", &["y"]));
    assert_eq!(s.handle_message(&uri, message, &alice), Ok(()));
    s.take_outbox();
    let effects = effects_of(&mut s, "wss://a", "alice", join("space", "alice"));
    assert_eq!(
        effects[2..],
        [
            log_in("alice", "wss://a", publish("space", "alice", entry("e", &["x"]))),
            sent("bob", "wss://b", store("space", "alice", "e", "x")),
            log_in("alice", "wss://a", publish("other", "alice", entry("f", &["y"]))),
        ]
    );
}

#[test]
fn entry_without_aspects_needs_no_space() {
    let mut s = server();
    s.handle_new_entry_data(entry("e", &[]), text("nowhere"), text("alice"));
    assert!(s.take_outbox().is_empty());
    let message = publish("nowhere", "alice", entry("e", &[]));
    let (uri, space, alice) = (text("wss://a"), text("nowhere"), text("alice"));
    assert_eq!(s.handle_joined(&uri, &space, &alice, message), Ok(()));
    assert!(s.take_outbox().is_empty());
    let unknown = WireMessage::Lib3hToClient(Lib3hToClient::HandleSendDirectMessage(direct(
        "nowhere", "alice", "bob",
    )));
    assert_eq!(s.broadcast(space, &unknown, None), Err(Sim2hError::NoSuchSpace));
}
