use lobby_core::directory::Directory;
use lobby_core::events::EventBody;
use lobby_core::model::{LobbyStatus, OpError};

fn s(x: &str) -> String {
    x.to_string()
}

#[test]
fn create_gives_self_led_singleton() {
    let mut d = Directory::new();
    let snap = d.create_self_lobby(&s("alice")).unwrap();
    assert_eq!(snap.info.lobby_name, "alice's lobby");
    assert_eq!(snap.info.leader, "alice");
    assert_eq!(snap.info.limit_num, 5);
    assert_eq!(snap.info.status, "Ready");
    assert_eq!(snap.members, vec![s("alice")]);
    assert_eq!(d.active_lobbies().len(), 1);
    assert_eq!(d.lobby_of(&s("alice")), Some(snap.lobby_id));
}

#[test]
fn create_is_idempotent() {
    let mut d = Directory::new();
    let first = d.create_self_lobby(&s("alice")).unwrap();
    let second = d.create_self_lobby(&s("alice")).unwrap();
    assert_eq!(first.lobby_id, second.lobby_id);
    assert_eq!(second.members, vec![s("alice")]);
    assert_eq!(d.active_lobbies().len(), 1);
}

#[test]
fn create_rejects_bad_username() {
    let mut d = Directory::new();
    assert!(matches!(d.create_self_lobby(&s("no spaces!")), Err(OpError::Validation)));
    assert!(matches!(d.create_self_lobby(&s("")), Err(OpError::Validation)));
    assert!(matches!(d.create_self_lobby(&s("waytoolongusername")), Err(OpError::Validation)));
}

#[test]
fn invite_rules() {
    let mut d = Directory::new();
    assert!(matches!(d.invite(&s("alice"), &s("bob")), Err(OpError::NotFound)));
    d.create_self_lobby(&s("alice")).unwrap();
    let ev = d.invite(&s("alice"), &s("bob")).unwrap();
    assert_eq!(ev.target, "bob");
    assert!(matches!(
        ev.body,
        EventBody::LobbyInvitationReceive { ref sender, ref receiver }
            if sender.as_str() == "alice" && receiver.as_str() == "bob"
    ));
    assert!(matches!(d.invite(&s("alice"), &s("alice")), Err(OpError::Conflict)));
    assert!(matches!(d.invite(&s("al ice"), &s("bob")), Err(OpError::Validation)));
}

#[test]
fn accept_joins_and_dissolves_old_singleton() {
    let mut d = Directory::new();
    let alice_lobby = d.create_self_lobby(&s("alice")).unwrap().lobby_id;
    let bob_lobby = d.create_self_lobby(&s("bob")).unwrap().lobby_id;
    assert_ne!(alice_lobby, bob_lobby);
    let (snap, events) = d.accept_invite(&s("bob"), &s("alice")).unwrap();
    assert_eq!(snap.lobby_id, alice_lobby);
    assert_eq!(snap.members, vec![s("alice"), s("bob")]);
    assert_eq!(d.lobby_of(&s("bob")), Some(alice_lobby));
    assert!(!d.active_lobbies().contains(&bob_lobby));
    // bob's singleton dissolved silently; alice is told about the acceptance
    assert_eq!(events.len(), 1);
    assert_eq!(events[0].target, "alice");
    assert!(matches!(
        events[0].body,
        EventBody::LobbyInvitationAccept { ref sender, ref receiver }
            if sender.as_str() == "alice" && receiver.as_str() == "bob"
    ));
}

#[test]
fn accept_rejects_full_lobby() {
    let mut d = Directory::new();
    d.create_self_lobby(&s("alice")).unwrap();
    for name in ["bob", "carol", "dave", "erin"] {
        d.create_self_lobby(&s(name)).unwrap();
        d.accept_invite(&s(name), &s("alice")).unwrap();
    }
    d.create_self_lobby(&s("frank")).unwrap();
    assert!(matches!(d.accept_invite(&s("frank"), &s("alice")), Err(OpError::Conflict)));
}

#[test]
fn accept_rejects_member_missing_sender_and_busy_lobby() {
    let mut d = Directory::new();
    assert!(matches!(d.accept_invite(&s("bob"), &s("alice")), Err(OpError::NotFound)));
    d.create_self_lobby(&s("alice")).unwrap();
    assert!(matches!(d.accept_invite(&s("alice"), &s("alice")), Err(OpError::Conflict)));
    d.record_game_server(&s("alice"), 7777).unwrap();
    assert!(matches!(d.accept_invite(&s("bob"), &s("alice")), Err(OpError::Conflict)));
}

#[test]
fn leave_by_sole_member_dissolves_lobby() {
    let mut d = Directory::new();
    let id = d.create_self_lobby(&s("alice")).unwrap().lobby_id;
    let events = d.leave(&s("alice")).unwrap();
    assert!(events.is_empty());
    assert_eq!(d.lobby_of(&s("alice")), None);
    assert!(d.get_lobby(id).is_none());
    assert!(d.active_lobbies().is_empty());
}

#[test]
fn leader_leave_elects_smallest_remaining() {
    let mut d = Directory::new();
    let id = d.create_self_lobby(&s("alice")).unwrap().lobby_id;
    d.create_self_lobby(&s("carol")).unwrap();
    d.accept_invite(&s("carol"), &s("alice")).unwrap();
    d.create_self_lobby(&s("bob")).unwrap();
    d.accept_invite(&s("bob"), &s("alice")).unwrap();
    let events = d.leave(&s("alice")).unwrap();
    let rec = d.get_lobby(id).unwrap();
    assert_eq!(rec.leader, "bob");
    assert_eq!(rec.members, vec![s("carol"), s("bob")]);
    assert_eq!(d.lobby_of(&s("carol")), Some(id));
    assert_eq!(d.lobby_of(&s("bob")), Some(id));
    assert_eq!(events.len(), 2);
    for (ev, expected) in events.iter().zip(["carol", "bob"]) {
        assert_eq!(ev.target, expected);
        match &ev.body {
            EventBody::LobbyLeave { username, leader, members } => {
                assert_eq!(username.as_str(), "alice");
                assert_eq!(leader.as_str(), "bob");
                assert_eq!(members, &vec![s("carol"), s("bob")]);
            },
            _ => panic!("unexpected event body"),
        }
    }
}

#[test]
fn leave_without_lobby_is_not_found() {
    let mut d = Directory::new();
    assert!(matches!(d.leave(&s("alice")), Err(OpError::NotFound)));
}

#[test]
fn kick_relocates_target_into_fresh_singleton() {
    let mut d = Directory::new();
    let id = d.create_self_lobby(&s("alice")).unwrap().lobby_id;
    d.create_self_lobby(&s("bob")).unwrap();
    d.accept_invite(&s("bob"), &s("alice")).unwrap();
    let events = d.kick(&s("alice"), &s("bob")).unwrap();
    let bob_lobby = d.lobby_of(&s("bob")).unwrap();
    assert_ne!(bob_lobby, id);
    let bob_rec = d.get_lobby(bob_lobby).unwrap();
    assert_eq!(bob_rec.leader, "bob");
    assert_eq!(bob_rec.members, vec![s("bob")]);
    assert_eq!(d.get_lobby(id).unwrap().members, vec![s("alice")]);
    // the one recipient is the removed target: their distinct notice
    assert_eq!(events.len(), 1);
    assert_eq!(events[0].target, "bob");
    assert!(matches!(
        events[0].body,
        EventBody::LobbyKickMember { ref sender, ref receiver }
            if sender.as_str() == "alice" && receiver.as_str() == "bob"
    ));
}

#[test]
fn kick_requires_leadership_and_membership() {
    let mut d = Directory::new();
    d.create_self_lobby(&s("alice")).unwrap();
    d.create_self_lobby(&s("bob")).unwrap();
    d.accept_invite(&s("bob"), &s("alice")).unwrap();
    assert!(matches!(d.kick(&s("bob"), &s("alice")), Err(OpError::Authorization)));
    assert!(matches!(d.kick(&s("alice"), &s("carol")), Err(OpError::NotFound)));
}

#[test]
fn promote_moves_leadership_in_place() {
    let mut d = Directory::new();
    let id = d.create_self_lobby(&s("alice")).unwrap().lobby_id;
    d.create_self_lobby(&s("bob")).unwrap();
    d.accept_invite(&s("bob"), &s("alice")).unwrap();
    let events = d.promote(&s("alice"), &s("bob")).unwrap();
    assert_eq!(d.lobby_of(&s("alice")), Some(id));
    assert_eq!(d.lobby_of(&s("bob")), Some(id));
    let rec = d.get_lobby(id).unwrap();
    assert_eq!(rec.leader, "bob");
    assert_eq!(rec.members, vec![s("alice"), s("bob")]);
    assert_eq!(events.len(), 1);
    assert_eq!(events[0].target, "bob");
    assert!(matches!(
        events[0].body,
        EventBody::LobbyMakeLeader { ref leader } if leader.as_str() == "bob"
    ));
    assert!(matches!(d.promote(&s("alice"), &s("bob")), Err(OpError::Authorization)));
}

#[test]
fn game_server_single_provisioning() {
    let mut d = Directory::new();
    let id = d.create_self_lobby(&s("alice")).unwrap().lobby_id;
    d.create_self_lobby(&s("bob")).unwrap();
    d.accept_invite(&s("bob"), &s("alice")).unwrap();
    assert_eq!(d.authorize_game_server(&s("alice")), Ok(id));
    assert!(matches!(d.authorize_game_server(&s("bob")), Err(OpError::Authorization)));
    let (server, events) = d.record_game_server(&s("alice"), 7777).unwrap();
    assert_eq!(server.address, "127.0.0.1:7777");
    assert_eq!(server.host, "alice");
    assert_eq!(d.get_lobby(id).unwrap().status, LobbyStatus::InMatch);
    let stored = d.get_session(id).unwrap();
    assert_eq!(stored.address, "127.0.0.1:7777");
    assert_eq!(events.len(), 1);
    assert_eq!(events[0].target, "bob");
    assert!(matches!(
        events[0].body,
        EventBody::GameServerCreate { ref address, ref host }
            if address.as_str() == "127.0.0.1:7777" && host.as_str() == "alice"
    ));
    // the second rapid call observes the bound session and conflicts
    assert!(matches!(d.record_game_server(&s("alice"), 7778), Err(OpError::Conflict)));
    assert!(matches!(d.authorize_game_server(&s("alice")), Err(OpError::Conflict)));
}

#[test]
fn drop_game_server_resets_lobby() {
    let mut d = Directory::new();
    let id = d.create_self_lobby(&s("alice")).unwrap().lobby_id;
    d.record_game_server(&s("alice"), 7777).unwrap();
    d.save_character_stats(&s("alice"), &s("{\"hp\":10}")).unwrap();
    d.drop_game_server(id).unwrap();
    assert_eq!(d.get_lobby(id).unwrap().status, LobbyStatus::Ready);
    assert!(d.get_session(id).is_none());
    assert!(d.get_stats(&s("alice")).is_none());
    assert!(matches!(d.drop_game_server(id + 1), Err(OpError::NotFound)));
}

#[test]
fn character_stats_gated_on_match() {
    let mut d = Directory::new();
    assert!(matches!(d.save_character_stats(&s("alice"), &s("{}")), Err(OpError::NotFound)));
    d.create_self_lobby(&s("alice")).unwrap();
    assert!(matches!(d.save_character_stats(&s("alice"), &s("{}")), Err(OpError::Conflict)));
    d.record_game_server(&s("alice"), 7000).unwrap();
    d.save_character_stats(&s("alice"), &s("{\"hp\":42}")).unwrap();
    assert_eq!(d.get_stats(&s("alice")).unwrap(), "{\"hp\":42}");
    d.remove_character_stats(&s("alice"));
    assert!(d.get_stats(&s("alice")).is_none());
}

#[test]
fn provisioning_clears_stale_stats() {
    let mut d = Directory::new();
    let id = d.create_self_lobby(&s("alice")).unwrap().lobby_id;
    d.record_game_server(&s("alice"), 7000).unwrap();
    d.save_character_stats(&s("alice"), &s("{\"hp\":1}")).unwrap();
    d.drop_game_server(id).unwrap();
    d.record_game_server(&s("alice"), 7001).unwrap();
    assert!(d.get_stats(&s("alice")).is_none());
}

#[test]
fn non_leader_member_leave_keeps_leader() {
    let mut d = Directory::new();
    let id = d.create_self_lobby(&s("alice")).unwrap().lobby_id;
    d.create_self_lobby(&s("bob")).unwrap();
    d.accept_invite(&s("bob"), &s("alice")).unwrap();
    d.create_self_lobby(&s("carol")).unwrap();
    d.accept_invite(&s("carol"), &s("alice")).unwrap();
    let events = d.leave(&s("bob")).unwrap();
    let rec = d.get_lobby(id).unwrap();
    assert_eq!(rec.leader, "alice");
    assert_eq!(rec.members, vec![s("alice"), s("carol")]);
    assert_eq!(events.len(), 2);
    assert_eq!(d.lobby_of(&s("bob")), None);
}

#[test]
fn any_member_may_invite() {
    let mut d = Directory::new();
    d.create_self_lobby(&s("alice")).unwrap();
    d.create_self_lobby(&s("bob")).unwrap();
    d.accept_invite(&s("bob"), &s("alice")).unwrap();
    // bob is not the leader, but invitations only need a current lobby
    let ev = d.invite(&s("bob"), &s("carol")).unwrap();
    assert_eq!(ev.target, "carol");
}

#[test]
fn lobby_id_stable_across_promotion() {
    let mut d = Directory::new();
    let id = d.create_self_lobby(&s("alice")).unwrap().lobby_id;
    d.create_self_lobby(&s("bob")).unwrap();
    d.accept_invite(&s("bob"), &s("alice")).unwrap();
    d.promote(&s("alice"), &s("bob")).unwrap();
    // the session binding keys on the same id after the leadership change
    assert_eq!(d.authorize_game_server(&s("bob")), Ok(id));
    let (_, _) = d.record_game_server(&s("bob"), 9000).unwrap();
    assert!(d.get_session(id).is_some());
}

#[test]
fn decline_invite_is_stateless() {
    let mut d = Directory::new();
    d.create_self_lobby(&s("alice")).unwrap();
    let before = d.active_lobbies().clone();
    let ev = lobby_core::directory::decline_invite(&s("bob"), &s("alice")).unwrap();
    assert_eq!(ev.target, "alice");
    assert!(matches!(ev.body, EventBody::LobbyInvitationDecline { .. }));
    assert_eq!(d.active_lobbies(), &before);
    assert!(matches!(
        lobby_core::directory::decline_invite(&s("b d"), &s("alice")),
        Err(OpError::Validation)
    ));
}
