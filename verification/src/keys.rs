//! The typed key schema of the session directory: every (entity kind, id)
//! pair maps to one store key here, so no caller builds keys by hand.

use vstd::prelude::*;

use crate::numfmt::{dec_rep, u64_to_dec};

verus! {

/// The key under which a user's lobby pointer is stored.
pub open spec fn user_lobby_key_spec(user: Seq<char>) -> Seq<char> {
    "user:"@ + user + ":lobby"@
}

/// The key under which a lobby record is stored.
pub open spec fn lobby_key_spec(id: u64) -> Seq<char> {
    "lobby:"@ + dec_rep(id as nat)
}

/// The key under which a lobby's member set is stored.
pub open spec fn members_key_spec(id: u64) -> Seq<char> {
    "lobby:"@ + dec_rep(id as nat) + ":members"@
}

/// The key under which a lobby's game session is stored.
pub open spec fn game_server_key_spec(id: u64) -> Seq<char> {
    "game_server:"@ + dec_rep(id as nat)
}

/// The key under which a user's transient in-match state is stored.
pub open spec fn character_info_key_spec(user: Seq<char>) -> Seq<char> {
    "character_info:"@ + user
}

/// The key under which a user's lobby pointer is stored.
pub fn user_lobby_key(user: &str) -> (r: String)
    ensures
        r@ == user_lobby_key_spec(user@),
{
    let mut s = String::from_str("user:");
    s.append(user);
    s.append(":lobby");
    proof {
        assert(s@ =~= user_lobby_key_spec(user@));
    }
    s
}

/// The key under which a lobby record is stored.
pub fn lobby_key(id: u64) -> (r: String)
    ensures
        r@ == lobby_key_spec(id),
{
    let mut s = String::from_str("lobby:");
    let d = u64_to_dec(id);
    s.append(d.as_str());
    proof {
        assert(s@ =~= lobby_key_spec(id));
    }
    s
}

/// The key under which a lobby's member set is stored.
pub fn members_key(id: u64) -> (r: String)
    ensures
        r@ == members_key_spec(id),
{
    let mut s = String::from_str("lobby:");
    let d = u64_to_dec(id);
    s.append(d.as_str());
    s.append(":members");
    proof {
        assert(s@ =~= members_key_spec(id));
    }
    s
}

/// The key under which a lobby's game session is stored.
pub fn game_server_key(id: u64) -> (r: String)
    ensures
        r@ == game_server_key_spec(id),
{
    let mut s = String::from_str("game_server:");
    let d = u64_to_dec(id);
    s.append(d.as_str());
    proof {
        assert(s@ =~= game_server_key_spec(id));
    }
    s
}

/// The key under which a user's transient in-match state is stored.
pub fn character_info_key(user: &str) -> (r: String)
    ensures
        r@ == character_info_key_spec(user@),
{
    let mut s = String::from_str("character_info:");
    s.append(user);
    proof {
        assert(s@ =~= character_info_key_spec(user@));
    }
    s
}

/// The key of the active-lobby index.
pub fn active_lobbies_key() -> (r: &'static str)
    ensures
        r@ == "active_lobbies"@,
{
    "active_lobbies"
}

/// The fanout bus channel every process subscribes to.
pub fn events_channel() -> (r: &'static str)
    ensures
        r@ == "web_socket_events"@,
{
    "web_socket_events"
}

} // verus!
