use lobby_core::commands::{route_ws_command, WsReply};
use lobby_core::directory::Directory;
use lobby_core::friends::{
    accept_friend_request_event, decline_friend_request_event, encode_friendlist,
    friendlist_response, send_friend_request_gate, FriendEntry,
};
use lobby_core::events::EventBody;
use lobby_core::keys;
use lobby_core::model::{
    create_game_server_info_hash_fields, FriendRequest, Friends, GameServer, LobbyInfo, OpError,
    User,
};
use lobby_core::numfmt::u64_to_dec;
use lobby_core::registry::Registry;
use lobby_core::text::{check_password, check_username, min_string, str_eq, str_le};

fn s(x: &str) -> String {
    x.to_string()
}

#[test]
fn username_and_password_checks() {
    assert!(check_username("alice"));
    assert!(check_username("a"));
    assert!(check_username("AB0@cdefghij"));
    assert!(!check_username(""));
    assert!(!check_username("thirteenchars"));
    assert!(!check_username("has space"));
    assert!(!check_username("star*name"));
    assert!(check_password("star*pass"));
    assert!(check_password("p@ss*W0rd"));
    assert!(!check_password("bad password"));
    assert!(!check_password(""));
}

#[test]
fn string_order_and_minimum() {
    assert!(str_le("abc", "abd"));
    assert!(!str_le("abd", "abc"));
    assert!(str_le("ab", "abc"));
    assert!(str_le("abc", "abc"));
    assert!(str_le("Zeta", "alpha"));
    assert!(str_eq("same", "same"));
    assert!(!str_eq("same", "sane"));
    assert!(!str_eq("same", "sam"));
    let names = vec![s("carol"), s("bob"), s("dave")];
    assert_eq!(min_string(&names), "bob");
    let single = vec![s("zoe")];
    assert_eq!(min_string(&single), "zoe");
}

#[test]
fn decimal_rendering() {
    assert_eq!(u64_to_dec(0), "0");
    assert_eq!(u64_to_dec(7), "7");
    assert_eq!(u64_to_dec(12345), "12345");
    assert_eq!(u64_to_dec(u64::MAX), "18446744073709551615");
}

#[test]
fn key_schema() {
    assert_eq!(keys::user_lobby_key("alice"), "user:alice:lobby");
    assert_eq!(keys::lobby_key(42), "lobby:42");
    assert_eq!(keys::members_key(42), "lobby:42:members");
    assert_eq!(keys::game_server_key(42), "game_server:42");
    assert_eq!(keys::character_info_key("alice"), "character_info:alice");
    assert_eq!(keys::active_lobbies_key(), "active_lobbies");
    assert_eq!(keys::events_channel(), "web_socket_events");
}

#[test]
fn registry_replaces_and_removes() {
    let mut r = Registry::new();
    assert_eq!(r.register(s("bob"), 1), None);
    assert_eq!(r.route(&s("bob")), Some(1));
    // a reconnect supersedes: the stale token is handed back to be closed
    assert_eq!(r.register(s("bob"), 2), Some(1));
    assert_eq!(r.route(&s("bob")), Some(2));
    assert_eq!(r.remove(&s("bob")), Some(2));
    assert_eq!(r.route(&s("bob")), None);
    assert_eq!(r.remove(&s("bob")), None);
}

#[test]
fn disconnect_cleanup_runs_once() {
    // a socket drop without logout: the registry entry goes and the
    // departure subroutine fires once; a second run is a harmless no-op
    let mut d = Directory::new();
    let mut r = Registry::new();
    d.create_self_lobby(&s("alice")).unwrap();
    d.create_self_lobby(&s("bob")).unwrap();
    d.accept_invite(&s("bob"), &s("alice")).unwrap();
    r.register(s("bob"), 7);
    assert_eq!(r.remove(&s("bob")), Some(7));
    let events = d.leave_process(&s("bob"));
    assert_eq!(events.len(), 1);
    assert_eq!(d.lobby_of(&s("bob")), None);
    let again = d.leave_process(&s("bob"));
    assert!(again.is_empty());
    assert_eq!(r.remove(&s("bob")), None);
}

#[test]
fn friendlist_encoding_and_merge() {
    let list = vec![
        FriendEntry { username: s("bob"), status: true },
        FriendEntry { username: s("carol"), status: false },
    ];
    assert_eq!(
        encode_friendlist(&list),
        "[{\"username\":\"bob\",\"status\":true},{\"username\":\"carol\",\"status\":false}]"
    );
    assert_eq!(encode_friendlist(&Vec::new()), "[]");
    assert!(matches!(
        friendlist_response(Vec::new(), Vec::new()),
        Err(OpError::NotFound)
    ));
    let merged = friendlist_response(
        vec![FriendEntry { username: s("bob"), status: true }],
        vec![FriendEntry { username: s("carol"), status: false }],
    )
    .unwrap();
    assert_eq!(merged.len(), 2);
    assert_eq!(merged[0].username, "bob");
    assert_eq!(merged[1].username, "carol");
}

#[test]
fn friend_request_gates() {
    assert!(matches!(
        send_friend_request_gate(&s("alice"), &s("bad name"), false),
        Err(OpError::Validation)
    ));
    assert!(matches!(
        send_friend_request_gate(&s("alice"), &s("bob"), true),
        Err(OpError::Conflict)
    ));
    let ev = send_friend_request_gate(&s("alice"), &s("bob"), false).unwrap();
    assert_eq!(ev.target, "bob");
    assert!(matches!(ev.body, EventBody::FriendRequestReceive { .. }));
    let acc = accept_friend_request_event(&s("alice"), &s("bob")).unwrap();
    assert_eq!(acc.target, "alice");
    assert!(matches!(acc.body, EventBody::FriendRequestAccept { .. }));
    let dec = decline_friend_request_event(&s("alice"), &s("bob")).unwrap();
    assert_eq!(dec.target, "alice");
    assert!(matches!(dec.body, EventBody::FriendRequestDecline { .. }));
}

#[test]
fn ws_command_routing() {
    assert!(matches!(
        route_ws_command("lobby", "get", false, true, Some(&s("alice"))),
        WsReply::NotHandled
    ));
    assert!(matches!(
        route_ws_command("friendlist", "get", true, false, None),
        WsReply::ErrorMessage("Missing payload !")
    ));
    assert!(matches!(
        route_ws_command("friendlist", "get", false, false, None),
        WsReply::ErrorMessage("Missing username !")
    ));
    assert!(matches!(
        route_ws_command("friendlist", "get", false, true, None),
        WsReply::ErrorMessage("Username not a string !")
    ));
    assert!(matches!(
        route_ws_command("friendlist", "get", false, true, Some(&s("bad name"))),
        WsReply::ErrorMessage("Invalid username format !")
    ));
    match route_ws_command("friendlist", "get", false, true, Some(&s("alice"))) {
        WsReply::Friendlist(u) => assert_eq!(u, "alice"),
        _ => panic!("expected a friend-list query"),
    }
}

#[test]
fn model_constructors_and_getters() {
    let f = Friends::new("alice", "bob");
    assert_eq!(f.get_player1(), "alice");
    assert_eq!(f.get_player2(), "bob");
    let fr = FriendRequest::new("alice", "bob");
    assert_eq!(fr.get_sender(), "alice");
    assert_eq!(fr.get_receiver(), "bob");
    let u = User::new("alice", "pw", &true);
    assert_eq!(u.get_username(), "alice");
    assert_eq!(u.get_password(), "pw");
    assert!(u.get_status());
    let g = GameServer::new("127.0.0.1:7777", "alice");
    let fields = create_game_server_info_hash_fields(&g);
    assert_eq!(fields.len(), 2);
    assert_eq!(fields[0], ("address", s("127.0.0.1:7777")));
    assert_eq!(fields[1], ("host", s("alice")));
    let li = LobbyInfo::new("alice's lobby", "alice", 5, "Ready");
    assert_eq!(li.lobby_name, "alice's lobby");
    assert_eq!(li.leader, "alice");
    assert_eq!(li.limit_num, 5);
    assert_eq!(li.status, "Ready");
}
