use lobby_core::events::{decode_envelope, Event, EventBody};

fn s(x: &str) -> String {
    x.to_string()
}

#[test]
fn encode_invitation_envelope_exactly() {
    let e = Event {
        target: s("bob"),
        body: EventBody::LobbyInvitationReceive { sender: s("alice"), receiver: s("bob") },
    };
    assert_eq!(
        e.encode(),
        "{\"username\":\"bob\",\"data\":{\"resource\":\"lobby_invitation\",\"action\":\"receive\",\
         \"payload\":{\"sender\":\"alice\",\"receiver\":\"bob\"}}}"
    );
}

#[test]
fn encode_leave_envelope_exactly() {
    let e = Event {
        target: s("carol"),
        body: EventBody::LobbyLeave {
            username: s("alice"),
            leader: s("bob"),
            members: vec![s("bob"), s("carol")],
        },
    };
    assert_eq!(
        e.encode(),
        "{\"username\":\"carol\",\"data\":{\"resource\":\"lobby\",\"action\":\"leave\",\
         \"payload\":{\"username\":\"alice\",\"leader\":\"bob\",\"members\":[\"bob\",\"carol\"]}}}"
    );
}

#[test]
fn encode_game_server_envelope_exactly() {
    let e = Event {
        target: s("bob"),
        body: EventBody::GameServerCreate { address: s("127.0.0.1:7777"), host: s("alice") },
    };
    assert_eq!(
        e.encode(),
        "{\"username\":\"bob\",\"data\":{\"resource\":\"game_server\",\"action\":\"create\",\
         \"payload\":{\"game_server\":{\"address\":\"127.0.0.1:7777\",\"host\":\"alice\"}}}}"
    );
}

#[test]
fn encode_friend_and_kick_envelopes() {
    let kick = Event {
        target: s("bob"),
        body: EventBody::LobbyKickMember { sender: s("alice"), receiver: s("bob") },
    };
    assert_eq!(
        kick.encode(),
        "{\"username\":\"bob\",\"data\":{\"resource\":\"lobby\",\"action\":\"kick_member\",\
         \"payload\":{\"sender\":\"alice\",\"receiver\":\"bob\"}}}"
    );
    let removed = Event { target: s("bob"), body: EventBody::FriendRemoved { username: s("alice") } };
    assert_eq!(
        removed.encode(),
        "{\"username\":\"bob\",\"data\":{\"resource\":\"friend\",\"action\":\"removed\",\
         \"payload\":{\"username\":\"alice\"}}}"
    );
    let decline = Event {
        target: s("alice"),
        body: EventBody::FriendRequestDecline { sender: s("alice"), receiver: s("bob") },
    };
    assert_eq!(
        decline.encode(),
        "{\"username\":\"alice\",\"data\":{\"resource\":\"friend_request\",\"action\":\"decline\",\
         \"payload\":{\"sender\":\"alice\",\"receiver\":\"bob\"}}}"
    );
}

#[test]
fn decode_round_trips_encoded_envelopes() {
    let e = Event {
        target: s("bob"),
        body: EventBody::LobbyMakeLeader { leader: s("carol") },
    };
    let wire = e.encode();
    let (target, data) = decode_envelope(&wire).unwrap();
    assert_eq!(target, "bob");
    assert_eq!(
        data,
        "{\"resource\":\"lobby\",\"action\":\"make_leader\",\"payload\":{\"leader\":\"carol\"}}"
    );
}

#[test]
fn decode_rejects_non_canonical_text() {
    assert!(decode_envelope("").is_none());
    assert!(decode_envelope("{}").is_none());
    assert!(decode_envelope("{\"username\":\"bob\"}").is_none());
    assert!(decode_envelope("{\"user\":\"bob\",\"data\":{}}").is_none());
    assert!(decode_envelope("{\"username\":\"bob\",\"data\":{!").is_none());
    assert!(decode_envelope("{\"username\":\"bob\"").is_none());
}

#[test]
fn duplicate_preserves_envelope() {
    let e = Event {
        target: s("carol"),
        body: EventBody::LobbyLeave {
            username: s("alice"),
            leader: s("bob"),
            members: vec![s("bob"), s("carol")],
        },
    };
    let d = e.duplicate();
    assert_eq!(d.encode(), e.encode());
}
