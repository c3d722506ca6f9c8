//! The session directory: the single source of truth for party membership.
//! It holds every lobby record, one lobby pointer per joined user, the index
//! of active lobbies, the game sessions, and per-user transient in-match
//! state, under one global invariant.

use vstd::prelude::*;

use crate::assoc::AssocMap;
use crate::events::{Event, EventBody, EventBodyV, EventV, events_view};
use crate::numfmt::{dec_rep, u64_to_dec};
use crate::model::{
    GameServer, GameServerV, LobbyInfo, LobbyStatus, OpError, clone_string_vec, index_of_string,
    index_of_u64, status_label,
};
use crate::text::{
    check_username, json_safe, lemma_json_safe_concat, lemma_lex_min_contains,
    lemma_valid_username_json_safe, lex_min, min_string, valid_username,
};

verus! {

/// Every lobby holds at most this many members.
pub const MAX_MEMBERS: usize = 5;

/// A party: its display name, current leader, readiness, and member roster.
pub struct LobbyRecord {
    pub name: String,
    pub leader: String,
    pub status: LobbyStatus,
    pub members: Vec<String>,
}

/// The mathematical value of a [`LobbyRecord`].
#[verifier::ext_equal]
pub struct LobbyRecordV {
    pub name: Seq<char>,
    pub leader: Seq<char>,
    pub status: LobbyStatus,
    pub members: Seq<Seq<char>>,
}

impl View for LobbyRecord {
    type V = LobbyRecordV;

    open spec fn view(&self) -> LobbyRecordV {
        LobbyRecordV {
            name: self.name@,
            leader: self.leader@,
            status: self.status,
            members: self.members.deep_view(),
        }
    }
}

/// The mathematical value of the whole [`Directory`].
#[verifier::ext_equal]
pub struct DirectoryV {
    pub lobbies: Map<u64, LobbyRecordV>,
    pub pointers: Map<Seq<char>, u64>,
    pub active: Seq<u64>,
    pub sessions: Map<u64, GameServerV>,
    pub stats: Map<Seq<char>, Seq<char>>,
    pub next_id: u64,
}

/// The record a fresh singleton lobby carries: self-led, ready, the creator
/// as sole member, named after the creator.
pub open spec fn singleton_record(user: Seq<char>) -> LobbyRecordV {
    LobbyRecordV {
        name: user + "'s lobby"@,
        leader: user,
        status: LobbyStatus::Ready,
        members: seq![user],
    }
}

/// The per-lobby part of the directory invariant.
pub open spec fn lobby_ok(v: DirectoryV, id: u64) -> bool {
    let r = v.lobbies[id];
    &&& 1 <= r.members.len() <= MAX_MEMBERS
    &&& r.members.no_duplicates()
    &&& r.members.contains(r.leader)
    &&& json_safe(r.name)
    &&& id < v.next_id
    &&& forall|i: int|
        0 <= i < r.members.len() ==> v.pointers.contains_key(#[trigger] r.members[i])
            && v.pointers[r.members[i]] == id
}

/// The directory invariant: pointers and rosters are mutually consistent,
/// every indexed lobby is a live non-empty lobby, rosters respect capacity,
/// the leader is a member, and a game session exists exactly for the lobbies
/// that are in a match.
pub open spec fn inv(v: DirectoryV) -> bool {
    &&& forall|id: u64| #[trigger] v.lobbies.contains_key(id) ==> lobby_ok(v, id)
    &&& forall|u: Seq<char>| #[trigger]
        v.pointers.contains_key(u) ==> valid_username(u) && v.lobbies.contains_key(v.pointers[u])
            && v.lobbies[v.pointers[u]].members.contains(u)
    &&& forall|id: u64| #[trigger] v.active.contains(id) ==> v.lobbies.contains_key(id)
    &&& forall|id: u64| #[trigger] v.lobbies.contains_key(id) ==> v.active.contains(id)
    &&& v.active.no_duplicates()
    &&& forall|id: u64| #[trigger]
        v.sessions.contains_key(id) ==> v.lobbies.contains_key(id) && v.lobbies[id].status
            is InMatch
    &&& forall|id: u64| #[trigger]
        v.lobbies.contains_key(id) && v.lobbies[id].status is InMatch
            ==> v.sessions.contains_key(id)
}

/// The session directory.
pub struct Directory {
    pub(crate) lobbies: AssocMap<u64, LobbyRecord>,
    pub(crate) pointers: AssocMap<String, u64>,
    pub(crate) active: Vec<u64>,
    pub(crate) sessions: AssocMap<u64, GameServer>,
    pub(crate) stats: AssocMap<String, String>,
    pub(crate) next_id: u64,
}

impl View for Directory {
    type V = DirectoryV;

    closed spec fn view(&self) -> DirectoryV {
        DirectoryV {
            lobbies: self.lobbies@,
            pointers: self.pointers@,
            active: self.active@,
            sessions: self.sessions@,
            stats: self.stats@,
            next_id: self.next_id,
        }
    }
}

/// A client-facing picture of one lobby: its id, its description, and the
/// full roster.
pub struct LobbySnapshot {
    pub lobby_id: u64,
    pub info: LobbyInfo,
    pub members: Vec<String>,
}

/// The snapshot faithfully renders the record stored under `id`.
pub open spec fn snapshot_matches(s: LobbySnapshot, id: u64, r: LobbyRecordV) -> bool {
    &&& s.lobby_id == id
    &&& s.info.lobby_name@ == r.name
    &&& s.info.leader@ == r.leader
    &&& s.info.limit_num == MAX_MEMBERS
    &&& s.info.status@ == status_label(r.status)
    &&& s.members.deep_view() == r.members
}

impl Directory {
    /// The structural half of well-formedness plus the semantic invariant.
    pub closed spec fn wf(&self) -> bool {
        &&& self.lobbies.wf()
        &&& self.pointers.wf()
        &&& self.sessions.wf()
        &&& self.stats.wf()
        &&& inv(self@)
    }

    /// A well-formed directory satisfies the semantic invariant.
    pub proof fn wf_implies_inv(&self)
        requires
            self.wf(),
        ensures
            inv(self@),
    {
    }

    /// An empty directory.
    pub fn new() -> (r: Self)
        ensures
            r.wf(),
            r@.lobbies == Map::<u64, LobbyRecordV>::empty(),
            r@.pointers == Map::<Seq<char>, u64>::empty(),
            r@.active == Seq::<u64>::empty(),
            r@.sessions == Map::<u64, GameServerV>::empty(),
            r@.stats == Map::<Seq<char>, Seq<char>>::empty(),
            r@.next_id == 0,
    {
        Directory {
            lobbies: AssocMap::new(),
            pointers: AssocMap::new(),
            active: Vec::new(),
            sessions: AssocMap::new(),
            stats: AssocMap::new(),
            next_id: 0,
        }
    }

    /// The id of the lobby `user` currently belongs to, if any.
    pub fn lobby_of(&self, user: &String) -> (r: Option<u64>)
        requires
            self.wf(),
        ensures
            match r {
                Some(id) => self@.pointers.contains_key(user@) && self@.pointers[user@] == id,
                None => !self@.pointers.contains_key(user@),
            },
    {
        match self.pointers.get(user) {
            Some(id) => Some(*id),
            None => None,
        }
    }

    /// The record stored under a lobby id, if the lobby is live.
    pub fn get_lobby(&self, id: u64) -> (r: Option<&LobbyRecord>)
        requires
            self.wf(),
        ensures
            match r {
                Some(rec) => self@.lobbies.contains_key(id) && rec@ == self@.lobbies[id],
                None => !self@.lobbies.contains_key(id),
            },
    {
        self.lobbies.get(&id)
    }

    /// The ids in the active-lobby index.
    pub fn active_lobbies(&self) -> (r: &Vec<u64>)
        ensures
            r@ == self@.active,
    {
        &self.active
    }

    /// The game session bound to a lobby, if any.
    pub fn get_session(&self, id: u64) -> (r: Option<&GameServer>)
        requires
            self.wf(),
        ensures
            match r {
                Some(s) => self@.sessions.contains_key(id) && s@ == self@.sessions[id],
                None => !self@.sessions.contains_key(id),
            },
    {
        self.sessions.get(&id)
    }

    /// The transient in-match state saved for a user, if any.
    pub fn get_stats(&self, user: &String) -> (r: Option<&String>)
        requires
            self.wf(),
        ensures
            match r {
                Some(s) => self@.stats.contains_key(user@) && s@ == self@.stats[user@],
                None => !self@.stats.contains_key(user@),
            },
    {
        self.stats.get(user)
    }

    /// Builds the client-facing snapshot of the lobby stored under `id`.
    pub(crate) fn snapshot_of(&self, id: u64) -> (r: LobbySnapshot)
        requires
            self.wf(),
            self@.lobbies.contains_key(id),
        ensures
            snapshot_matches(r, id, self@.lobbies[id]),
    {
        let rec = match self.lobbies.get(&id) {
            Some(rec) => rec,
            None => {
                proof {
                    assert(false);
                }
                return LobbySnapshot {
                    lobby_id: id,
                    info: LobbyInfo::new("", "", 0, ""),
                    members: Vec::new(),
                };
            },
        };
        let info = LobbyInfo::new(
            rec.name.as_str(),
            rec.leader.as_str(),
            MAX_MEMBERS,
            rec.status.label(),
        );
        LobbySnapshot {
            lobby_id: id,
            info,
            members: crate::model::clone_string_vec(&rec.members),
        }
    }
}



/// The directory after a fresh singleton lobby is created for `user`, who
/// must not belong to any lobby.
pub open spec fn create_effect(v: DirectoryV, user: Seq<char>) -> DirectoryV {
    DirectoryV {
        lobbies: v.lobbies.insert(v.next_id, singleton_record(user)),
        pointers: v.pointers.insert(user, v.next_id),
        active: v.active.push(v.next_id),
        sessions: v.sessions,
        stats: v.stats,
        next_id: (v.next_id + 1) as u64,
    }
}

/// The fixed suffix of a fresh lobby's name is JSON-safe.
proof fn lemma_lobby_suffix_json_safe()
    ensures
        json_safe("'s lobby"@),
{
    reveal_strlit("'s lobby");
}

impl Directory {
    /// Creates the fresh singleton lobby for `user` and wires up pointer and
    /// index; `user` must not currently belong to any lobby.
    pub(crate) fn make_singleton(&mut self, user: &String) -> (id: u64)
        requires
            old(self).wf(),
            valid_username(user@),
            !old(self)@.pointers.contains_key(user@),
            old(self)@.next_id < u64::MAX,
        ensures
            final(self).wf(),
            id == old(self)@.next_id,
            final(self)@ == create_effect(old(self)@, user@),
    {
        let ghost v0 = self@;
        let id = self.next_id;
        let name = user.clone().concat("'s lobby");
        let mut members: Vec<String> = Vec::new();
        members.push(user.clone());
        let rec = LobbyRecord { name, leader: user.clone(), status: LobbyStatus::Ready, members };
        proof {
            assert(rec@.members =~= seq![user@]);
            assert(rec@ =~= singleton_record(user@));
        }
        self.lobbies.insert(id, rec);
        self.pointers.insert(user.clone(), id);
        self.active.push(id);
        self.next_id = id + 1;
        proof {
            assert(self@ =~= create_effect(v0, user@));
            lemma_create_preserves_inv(v0, user@);
        }
        id
    }

    /// Idempotent bootstrap: ensures `user` has a lobby, creating the
    /// self-led singleton if none exists, and returns its snapshot.
    pub fn create_self_lobby(&mut self, user: &String) -> (r: Result<LobbySnapshot, OpError>)
        requires
            old(self).wf(),
        ensures
            final(self).wf(),
            !valid_username(user@) ==> (r matches Err(OpError::Validation)) && final(self)@
                == old(self)@,
            valid_username(user@) && old(self)@.pointers.contains_key(user@) ==> final(self)@
                == old(self)@ && (r matches Ok(s) && snapshot_matches(
                s,
                old(self)@.pointers[user@],
                old(self)@.lobbies[old(self)@.pointers[user@]],
            )),
            valid_username(user@) && !old(self)@.pointers.contains_key(user@) && old(self)@.next_id
                < u64::MAX ==> final(self)@ == create_effect(old(self)@, user@) && (
            r matches Ok(s) && snapshot_matches(s, old(self)@.next_id, singleton_record(user@))),
            valid_username(user@) && !old(self)@.pointers.contains_key(user@) && old(self)@.next_id
                == u64::MAX ==> (r matches Err(OpError::Infrastructure)) && final(self)@ == old(
                self,
            )@,
    {
        if !check_username(user.as_str()) {
            return Err(OpError::Validation);
        }
        let existing = match self.pointers.get(user) {
            Some(id) => Some(*id),
            None => None,
        };
        match existing {
            Some(id) => {
                proof {
                    assert(self@.lobbies.contains_key(id));
                }
                Ok(self.snapshot_of(id))
            },
            None => {
                if self.next_id == u64::MAX {
                    return Err(OpError::Infrastructure);
                }
                let id = self.make_singleton(user);
                Ok(self.snapshot_of(id))
            },
        }
    }
}


/// With pairwise-distinct elements, removing position `i` removes exactly
/// the element at `i`, and distinctness survives.
proof fn lemma_remove_contains<T>(s: Seq<T>, i: int, x: T)
    requires
        s.no_duplicates(),
        0 <= i < s.len(),
    ensures
        s.remove(i).contains(x) <==> (s.contains(x) && x != s[i]),
        s.remove(i).no_duplicates(),
{
    s.remove_ensures(i);
    let t = s.remove(i);
    if t.contains(x) {
        let j = choose|j: int| 0 <= j < t.len() && t[j] == x;
        if j < i {
            assert(s[j] == x);
        } else {
            assert(s[j + 1] == x);
        }
    }
    if s.contains(x) && x != s[i] {
        let j = choose|j: int| 0 <= j < s.len() && s[j] == x;
        if j < i {
            assert(t[j] == x);
        } else {
            assert(t[j - 1] == x);
        }
    }
    assert forall|a: int, b: int|
        0 <= a < t.len() && 0 <= b < t.len() && a != b implies t[a] != t[b] by {
        let a2: int = if a < i { a } else { a + 1 };
        let b2: int = if b < i { b } else { b + 1 };
        assert(t[a] == s[a2] && t[b] == s[b2]);
    }
}

/// When position `i` carries the first occurrence of `x`, removing the value
/// `x` is removing position `i`.
proof fn lemma_remove_value_is_remove<T>(s: Seq<T>, x: T, i: int)
    requires
        0 <= i < s.len(),
        s[i] == x,
        forall|j: int| 0 <= j < i ==> s[j] != x,
    ensures
        s.remove_value(x) == s.remove(i),
{
    assert(s.contains(x));
    s.index_of_first_ensures(x);
    let idx = s.index_of_first(x)->Some_0;
    if idx < i {
        assert(s[idx] != x);
    }
    if i < idx {
        assert(s[i] != x);
    }
}

/// The directory after `user` leaves their current lobby (a no-op for a
/// user without one): the pointer is cleared and the roster shrinks; an
/// empty lobby dissolves together with its index entry and any session; a
/// departing leader is replaced by the lexicographically smallest remaining
/// member.
pub open spec fn leave_effect(v: DirectoryV, user: Seq<char>) -> DirectoryV {
    if !v.pointers.contains_key(user) {
        v
    } else {
        let l = v.pointers[user];
        let r = v.lobbies[l];
        let ms = r.members.remove_value(user);
        if ms.len() == 0 {
            DirectoryV {
                lobbies: v.lobbies.remove(l),
                pointers: v.pointers.remove(user),
                active: v.active.remove_value(l),
                sessions: v.sessions.remove(l),
                stats: v.stats,
                next_id: v.next_id,
            }
        } else {
            DirectoryV {
                lobbies: v.lobbies.insert(
                    l,
                    LobbyRecordV {
                        name: r.name,
                        leader: leader_after_leave(r, user),
                        status: r.status,
                        members: ms,
                    },
                ),
                pointers: v.pointers.remove(user),
                active: v.active,
                sessions: v.sessions,
                stats: v.stats,
                next_id: v.next_id,
            }
        }
    }
}

/// Who leads the lobby once `user` has left it: the old leader if they
/// stayed, else the lexicographically smallest remaining member.
pub open spec fn leader_after_leave(r: LobbyRecordV, user: Seq<char>) -> Seq<char> {
    if r.leader == user {
        lex_min(r.members.remove_value(user))
    } else {
        r.leader
    }
}

/// The events a departure owes: one `lobby`/`leave` envelope per remaining
/// member, carrying the departed username, the (possibly new) leader and the
/// updated roster. A dissolved or untouched lobby owes none.
pub open spec fn leave_events(v: DirectoryV, user: Seq<char>) -> Seq<EventV> {
    if !v.pointers.contains_key(user) {
        Seq::empty()
    } else {
        let l = v.pointers[user];
        let r = v.lobbies[l];
        let ms = r.members.remove_value(user);
        if ms.len() == 0 {
            Seq::empty()
        } else {
            Seq::new(
                ms.len(),
                |i: int|
                    EventV {
                        target: ms[i],
                        body: EventBodyV::LobbyLeave {
                            username: user,
                            leader: leader_after_leave(r, user),
                            members: ms,
                        },
                    },
            )
        }
    }
}

/// A departure preserves the directory invariant.
proof fn lemma_leave_preserves_inv(v: DirectoryV, user: Seq<char>)
    requires
        inv(v),
    ensures
        inv(leave_effect(v, user)),
{
    if !v.pointers.contains_key(user) {
        return ;
    }
    let w = leave_effect(v, user);
    let l = v.pointers[user];
    let r = v.lobbies[l];
    assert(v.lobbies.contains_key(l));
    assert(lobby_ok(v, l));
    assert(r.members.contains(user));
    let i0 = choose|i: int| 0 <= i < r.members.len() && r.members[i] == user;
    assert forall|j: int| 0 <= j < i0 implies r.members[j] != user by {
        if r.members[j] == user {
            assert(r.members[j] == r.members[i0]);
        }
    }
    lemma_remove_value_is_remove(r.members, user, i0);
    lemma_remove_contains(r.members, i0, user);
    let ms = r.members.remove_value(user);
    assert(ms.len() == r.members.len() - 1);
    assert forall|x: Seq<char>| true implies (ms.contains(x) <==> (r.members.contains(x) && x
        != user)) by {
        lemma_remove_contains(r.members, i0, x);
    }
    if ms.len() == 0 {
        assert forall|l2: u64| #[trigger] w.lobbies.contains_key(l2) implies lobby_ok(w, l2) by {
            assert(v.lobbies.contains_key(l2));
            assert(lobby_ok(v, l2));
            let r2 = v.lobbies[l2];
            assert forall|i: int| 0 <= i < r2.members.len() implies w.pointers.contains_key(
                #[trigger] r2.members[i],
            ) && w.pointers[r2.members[i]] == l2 by {
                assert(v.pointers.contains_key(r2.members[i]));
                if r2.members[i] == user {
                    assert(v.pointers[user] == l2);
                }
            }
        }
        assert forall|u: Seq<char>| #[trigger] w.pointers.contains_key(u) implies valid_username(
            u,
        ) && w.lobbies.contains_key(w.pointers[u]) && w.lobbies[w.pointers[u]].members.contains(
            u,
        ) by {
            assert(v.pointers.contains_key(u));
            let l2 = v.pointers[u];
            if l2 == l {
                assert(r.members.contains(u));
                let j = choose|j: int| 0 <= j < r.members.len() && r.members[j] == u;
                assert(r.members.len() == 1);
                assert(j == i0);
                assert(u == user);
            }
        }
        assert(v.active.contains(l));
        let ai = choose|i: int| 0 <= i < v.active.len() && v.active[i] == l;
        assert forall|j: int| 0 <= j < ai implies v.active[j] != l by {}
        lemma_remove_value_is_remove(v.active, l, ai);
        lemma_remove_contains(v.active, ai, l);
        assert forall|x: u64| true implies (w.active.contains(x) <==> (v.active.contains(x) && x
            != l)) by {
            lemma_remove_contains(v.active, ai, x);
        }
        assert forall|l2: u64| #[trigger] w.active.contains(l2) implies w.lobbies.contains_key(
            l2,
        ) by {
            assert(v.active.contains(l2) && l2 != l);
        }
        assert forall|l2: u64| #[trigger] w.lobbies.contains_key(l2) implies w.active.contains(
            l2,
        ) by {
            assert(v.lobbies.contains_key(l2) && l2 != l);
        }
        assert forall|l2: u64| #[trigger] w.sessions.contains_key(l2) implies w.lobbies.contains_key(
            l2,
        ) && w.lobbies[l2].status is InMatch by {
            assert(v.sessions.contains_key(l2) && l2 != l);
        }
        assert forall|l2: u64|
            #[trigger] w.lobbies.contains_key(l2) && w.lobbies[l2].status is InMatch
            implies w.sessions.contains_key(l2) by {
            assert(v.lobbies.contains_key(l2) && l2 != l);
            assert(v.lobbies[l2].status is InMatch);
        }
    } else {
        let nl = leader_after_leave(r, user);
        assert(ms.contains(nl)) by {
            if r.leader == user {
                lemma_lex_min_contains(ms);
            } else {
                assert(r.members.contains(r.leader));
            }
        }
        assert(lobby_ok(w, l)) by {
            assert(ms.no_duplicates());
            assert forall|i: int| 0 <= i < ms.len() implies w.pointers.contains_key(
                #[trigger] ms[i],
            ) && w.pointers[ms[i]] == l by {
                assert(ms.contains(ms[i]));
                assert(r.members.contains(ms[i]) && ms[i] != user);
                let j = choose|j: int| 0 <= j < r.members.len() && r.members[j] == ms[i];
                assert(v.pointers.contains_key(ms[i]) && v.pointers[ms[i]] == l);
            }
        }
        assert forall|l2: u64| #[trigger] w.lobbies.contains_key(l2) implies lobby_ok(w, l2) by {
            if l2 != l {
                assert(v.lobbies.contains_key(l2));
                assert(lobby_ok(v, l2));
                let r2 = v.lobbies[l2];
                assert forall|i: int| 0 <= i < r2.members.len() implies w.pointers.contains_key(
                    #[trigger] r2.members[i],
                ) && w.pointers[r2.members[i]] == l2 by {
                    assert(v.pointers.contains_key(r2.members[i]));
                    if r2.members[i] == user {
                        assert(v.pointers[user] == l2);
                    }
                }
            }
        }
        assert forall|u: Seq<char>| #[trigger] w.pointers.contains_key(u) implies valid_username(
            u,
        ) && w.lobbies.contains_key(w.pointers[u]) && w.lobbies[w.pointers[u]].members.contains(
            u,
        ) by {
            assert(v.pointers.contains_key(u));
            let l2 = v.pointers[u];
            if l2 == l {
                assert(r.members.contains(u));
                assert(u != user);
                assert(ms.contains(u));
            }
        }
        assert forall|l2: u64| #[trigger] w.active.contains(l2) implies w.lobbies.contains_key(
            l2,
        ) by {
            assert(v.lobbies.contains_key(l2));
        }
        assert forall|l2: u64| #[trigger] w.lobbies.contains_key(l2) implies w.active.contains(
            l2,
        ) by {
            assert(v.lobbies.contains_key(l2));
        }
        assert forall|l2: u64| #[trigger] w.sessions.contains_key(l2) implies w.lobbies.contains_key(
            l2,
        ) && w.lobbies[l2].status is InMatch by {
            assert(v.lobbies.contains_key(l2));
        }
        assert forall|l2: u64|
            #[trigger] w.lobbies.contains_key(l2) && w.lobbies[l2].status is InMatch
            implies w.sessions.contains_key(l2) by {
            assert(v.lobbies.contains_key(l2));
            if l2 == l {
                assert(v.lobbies[l2].status is InMatch);
            }
        }
    }
}

/// Creating a fresh singleton for an unaffiliated user preserves the
/// directory invariant.
proof fn lemma_create_preserves_inv(v: DirectoryV, user: Seq<char>)
    requires
        inv(v),
        valid_username(user),
        !v.pointers.contains_key(user),
        v.next_id < u64::MAX,
    ensures
        inv(create_effect(v, user)),
{
    let w = create_effect(v, user);
    let id = v.next_id;
    assert(!v.lobbies.contains_key(id)) by {
        if v.lobbies.contains_key(id) {
            assert(lobby_ok(v, id));
        }
    }
    assert(!v.active.contains(id));
    assert(json_safe(singleton_record(user).name)) by {
        lemma_valid_username_json_safe(user);
        lemma_lobby_suffix_json_safe();
        lemma_json_safe_concat(user, "'s lobby"@);
    }
    assert(lobby_ok(w, id)) by {
        assert(w.lobbies[id].members == seq![user]);
        assert(w.lobbies[id].members[0] == user);
        assert(w.lobbies[id].members.contains(user));
        assert(w.pointers.contains_key(user) && w.pointers[user] == id);
    }
    assert forall|l: u64| #[trigger] w.lobbies.contains_key(l) implies lobby_ok(w, l) by {
        if l != id {
            assert(v.lobbies.contains_key(l));
            assert(lobby_ok(v, l));
            let r = v.lobbies[l];
            assert forall|i: int| 0 <= i < r.members.len() implies w.pointers.contains_key(
                #[trigger] r.members[i],
            ) && w.pointers[r.members[i]] == l by {
                assert(v.pointers.contains_key(r.members[i]));
                assert(r.members[i] != user);
            }
            assert(lobby_ok(w, l));
        }
    }
    assert forall|u: Seq<char>| #[trigger] w.pointers.contains_key(u) implies valid_username(u)
        && w.lobbies.contains_key(w.pointers[u]) && w.lobbies[w.pointers[u]].members.contains(
        u,
    ) by {
        if u == user {
            assert(w.lobbies[id].members[0] == user);
        } else {
            assert(v.pointers.contains_key(u));
            assert(v.lobbies.contains_key(v.pointers[u]));
            assert(v.pointers[u] != id);
        }
    }
    assert forall|l: u64| #[trigger] w.active.contains(l) implies w.lobbies.contains_key(l) by {
        if l != id {
            assert(v.active.contains(l)) by {
                let i = choose|i: int| 0 <= i < w.active.len() && w.active[i] == l;
                assert(v.active[i] == l);
            }
        }
    }
    assert forall|l: u64| #[trigger] w.lobbies.contains_key(l) implies w.active.contains(l) by {
        if l == id {
            assert(w.active[w.active.len() - 1] == id);
        } else {
            assert(v.active.contains(l));
            let i = choose|i: int| 0 <= i < v.active.len() && v.active[i] == l;
            assert(w.active[i] == l);
        }
    }
    assert(w.active.no_duplicates()) by {
        assert forall|i: int, j: int|
            0 <= i < w.active.len() && 0 <= j < w.active.len() && i != j implies w.active[i]
            != w.active[j] by {
            if i < v.active.len() && j < v.active.len() {
            } else if i < v.active.len() {
                assert(v.active.contains(v.active[i]));
            } else if j < v.active.len() {
                assert(v.active.contains(v.active[j]));
            }
        }
    }
    assert forall|l: u64| #[trigger] w.sessions.contains_key(l) implies w.lobbies.contains_key(l)
        && w.lobbies[l].status is InMatch by {
        assert(v.lobbies.contains_key(l));
        assert(lobby_ok(v, l));
        assert(l != id);
    }
    assert forall|l: u64|
        #[trigger] w.lobbies.contains_key(l) && w.lobbies[l].status is InMatch
        implies w.sessions.contains_key(l) by {
        if l != id {
            assert(v.lobbies.contains_key(l));
        }
    }
}


impl Directory {
    /// The shared departure subroutine, also used by logout and disconnect
    /// cleanup: removes `user` from their lobby, clears the pointer,
    /// dissolves an emptied lobby, elects a deterministic new leader when
    /// the old one left, and returns the owed `lobby`/`leave` events.
    #[verifier::loop_isolation(false)]
    pub fn leave_process(&mut self, user: &String) -> (evs: Vec<Event>)
        requires
            old(self).wf(),
        ensures
            final(self).wf(),
            final(self)@ == leave_effect(old(self)@, user@),
            events_view(evs@) == leave_events(old(self)@, user@),
    {
        let ghost v0 = self@;
        let lid = match self.pointers.get(user) {
            Some(l) => *l,
            None => {
                proof {
                    assert(events_view(Seq::<Event>::empty()) =~= leave_events(v0, user@));
                }
                return Vec::new();
            },
        };
        let (name, leader, status, mut members) = {
            let rec = match self.lobbies.get(&lid) {
                Some(rec) => rec,
                None => {
                    proof {
                        assert(false);
                    }
                    return Vec::new();
                },
            };
            (rec.name.clone(), rec.leader.clone(), rec.status, clone_string_vec(&rec.members))
        };
        let ghost rv = v0.lobbies[lid];
        let ghost pre_members = members.deep_view();
        proof {
            assert(pre_members =~= rv.members);
        }
        let idx = match index_of_string(&members, user) {
            Some(i) => i,
            None => {
                proof {
                    assert(rv.members.contains(user@));
                }
                return Vec::new();
            },
        };
        let _removed = members.remove(idx);
        proof {
            pre_members.remove_ensures(idx as int);
            assert(members.deep_view() =~= pre_members.remove(idx as int));
            lemma_remove_value_is_remove(pre_members, user@, idx as int);
            assert(members.deep_view() == rv.members.remove_value(user@));
        }
        let ghost ms = rv.members.remove_value(user@);
        if members.len() == 0 {
            self.lobbies.remove(&lid);
            self.pointers.remove(user);
            let aidx = match index_of_u64(&self.active, lid) {
                Some(i) => i,
                None => {
                    proof {
                        assert(v0.active.contains(lid));
                    }
                    return Vec::new();
                },
            };
            let _ = self.active.remove(aidx);
            self.sessions.remove(&lid);
            proof {
                lemma_remove_value_is_remove(v0.active, lid, aidx as int);
                assert(self@ =~= leave_effect(v0, user@));
                lemma_leave_preserves_inv(v0, user@);
                assert(events_view(Seq::<Event>::empty()) =~= leave_events(v0, user@));
            }
            Vec::new()
        } else {
            let new_leader = if leader == *user {
                min_string(&members)
            } else {
                leader
            };
            proof {
                assert(new_leader@ == leader_after_leave(rv, user@));
            }
            let rec = LobbyRecord {
                name,
                leader: new_leader.clone(),
                status,
                members: clone_string_vec(&members),
            };
            proof {
                assert(rec@ =~= (LobbyRecordV {
                    name: rv.name,
                    leader: leader_after_leave(rv, user@),
                    status: rv.status,
                    members: ms,
                }));
            }
            self.lobbies.insert(lid, rec);
            self.pointers.remove(user);
            let ghost lev = leave_events(v0, user@);
            let mut evs: Vec<Event> = Vec::new();
            let n = members.len();
            for i in 0..n
                invariant
                    events_view(evs@) =~= lev.subrange(0, i as int),
            {
                evs.push(
                    Event {
                        target: members[i].clone(),
                        body: EventBody::LobbyLeave {
                            username: user.clone(),
                            leader: new_leader.clone(),
                            members: clone_string_vec(&members),
                        },
                    },
                );
                proof {
                    assert(evs@.last()@ == lev[i as int]);
                    assert(events_view(evs@) =~= events_view(evs@.drop_last()).push(
                        evs@.last()@,
                    ));
                    assert(events_view(evs@) =~= lev.subrange(0, i + 1));
                }
            }
            proof {
                assert(events_view(evs@) =~= lev);
                assert(self@ =~= leave_effect(v0, user@));
                lemma_leave_preserves_inv(v0, user@);
            }
            evs
        }
    }

    /// `leave`: the explicit endpoint. Validates the caller, requires a
    /// current lobby, and then runs the shared departure subroutine.
    pub fn leave(&mut self, user: &String) -> (r: Result<Vec<Event>, OpError>)
        requires
            old(self).wf(),
        ensures
            final(self).wf(),
            !valid_username(user@) ==> (r matches Err(OpError::Validation)) && final(self)@ == old(
                self,
            )@,
            valid_username(user@) && !old(self)@.pointers.contains_key(user@) ==> (
            r matches Err(OpError::NotFound)) && final(self)@ == old(self)@,
            valid_username(user@) && old(self)@.pointers.contains_key(user@) ==> final(self)@
                == leave_effect(old(self)@, user@) && (r matches Ok(evs) && events_view(evs@)
                == leave_events(old(self)@, user@)),
    {
        if !check_username(user.as_str()) {
            return Err(OpError::Validation);
        }
        if !self.pointers.contains_key(user) {
            return Err(OpError::NotFound);
        }
        Ok(self.leave_process(user))
    }
}


/// An invitation from `sender` can be accepted by `receiver`: both names are
/// well-formed, the sender sits in a lobby, and that lobby is ready, not
/// full, and does not already hold the receiver.
pub open spec fn acceptable(v: DirectoryV, receiver: Seq<char>, sender: Seq<char>) -> bool {
    &&& valid_username(sender)
    &&& valid_username(receiver)
    &&& v.pointers.contains_key(sender)
    &&& !v.lobbies[v.pointers[sender]].members.contains(receiver)
    &&& v.lobbies[v.pointers[sender]].status is Ready
    &&& v.lobbies[v.pointers[sender]].members.len() < MAX_MEMBERS
}

/// The caller may kick or promote `target`: names are well-formed, the
/// caller sits in and leads a lobby, and `target` is one of its members.
pub open spec fn kickable(v: DirectoryV, caller: Seq<char>, target: Seq<char>) -> bool {
    &&& valid_username(caller)
    &&& valid_username(target)
    &&& v.pointers.contains_key(caller)
    &&& v.lobbies[v.pointers[caller]].leader == caller
    &&& v.lobbies[v.pointers[caller]].members.contains(target)
}

/// The directory after `receiver` accepts `sender`'s invitation: `receiver`
/// first leaves any prior lobby, then joins `sender`'s current lobby and is
/// repointed to it.
pub open spec fn accept_effect(v: DirectoryV, receiver: Seq<char>, sender: Seq<char>) -> DirectoryV {
    let l = v.pointers[sender];
    let mid = leave_effect(v, receiver);
    let r = mid.lobbies[l];
    DirectoryV {
        lobbies: mid.lobbies.insert(
            l,
            LobbyRecordV {
                name: r.name,
                leader: r.leader,
                status: r.status,
                members: r.members.push(receiver),
            },
        ),
        pointers: mid.pointers.insert(receiver, l),
        active: mid.active,
        sessions: mid.sessions,
        stats: mid.stats,
        next_id: mid.next_id,
    }
}

/// The `lobby_invitation`/`accept` envelopes an acceptance owes: one per
/// member the lobby had before the join.
pub open spec fn accept_events(v: DirectoryV, receiver: Seq<char>, sender: Seq<char>) -> Seq<
    EventV,
> {
    let ms = v.lobbies[v.pointers[sender]].members;
    Seq::new(
        ms.len(),
        |i: int|
            EventV {
                target: ms[i],
                body: EventBodyV::LobbyInvitationAccept { sender, receiver },
            },
    )
}

/// Adding an outside user to a non-full lobby preserves the invariant.
proof fn lemma_join_preserves_inv(v: DirectoryV, user: Seq<char>, l: u64)
    requires
        inv(v),
        valid_username(user),
        !v.pointers.contains_key(user),
        v.lobbies.contains_key(l),
        !v.lobbies[l].members.contains(user),
        v.lobbies[l].members.len() < MAX_MEMBERS,
    ensures
        inv(
            DirectoryV {
                lobbies: v.lobbies.insert(
                    l,
                    LobbyRecordV {
                        name: v.lobbies[l].name,
                        leader: v.lobbies[l].leader,
                        status: v.lobbies[l].status,
                        members: v.lobbies[l].members.push(user),
                    },
                ),
                pointers: v.pointers.insert(user, l),
                active: v.active,
                sessions: v.sessions,
                stats: v.stats,
                next_id: v.next_id,
            },
        ),
{
    let r = v.lobbies[l];
    let ms = r.members.push(user);
    let w = DirectoryV {
        lobbies: v.lobbies.insert(
            l,
            LobbyRecordV { name: r.name, leader: r.leader, status: r.status, members: ms },
        ),
        pointers: v.pointers.insert(user, l),
        active: v.active,
        sessions: v.sessions,
        stats: v.stats,
        next_id: v.next_id,
    };
    assert(lobby_ok(v, l));
    assert(lobby_ok(w, l)) by {
        assert(ms.no_duplicates()) by {
            assert forall|a: int, b: int|
                0 <= a < ms.len() && 0 <= b < ms.len() && a != b implies ms[a] != ms[b] by {
                if a < ms.len() - 1 && b < ms.len() - 1 {
                } else if a < ms.len() - 1 {
                    assert(r.members.contains(r.members[a]));
                } else if b < ms.len() - 1 {
                    assert(r.members.contains(r.members[b]));
                }
            }
        }
        assert(ms.contains(r.leader)) by {
            let j = choose|j: int| 0 <= j < r.members.len() && r.members[j] == r.leader;
            assert(ms[j] == r.leader);
        }
        assert forall|i: int| 0 <= i < ms.len() implies w.pointers.contains_key(#[trigger] ms[i])
            && w.pointers[ms[i]] == l by {
            if i < ms.len() - 1 {
                assert(v.pointers.contains_key(r.members[i]));
                assert(r.members[i] != user);
            }
        }
    }
    assert forall|l2: u64| #[trigger] w.lobbies.contains_key(l2) implies lobby_ok(w, l2) by {
        if l2 != l {
            assert(v.lobbies.contains_key(l2));
            assert(lobby_ok(v, l2));
            let r2 = v.lobbies[l2];
            assert forall|i: int| 0 <= i < r2.members.len() implies w.pointers.contains_key(
                #[trigger] r2.members[i],
            ) && w.pointers[r2.members[i]] == l2 by {
                assert(v.pointers.contains_key(r2.members[i]));
                assert(r2.members[i] != user);
            }
        }
    }
    assert forall|u: Seq<char>| #[trigger] w.pointers.contains_key(u) implies valid_username(u)
        && w.lobbies.contains_key(w.pointers[u]) && w.lobbies[w.pointers[u]].members.contains(
        u,
    ) by {
        if u == user {
            assert(ms[ms.len() - 1] == user);
        } else {
            assert(v.pointers.contains_key(u));
            let l2 = v.pointers[u];
            if l2 == l {
                let j = choose|j: int| 0 <= j < r.members.len() && r.members[j] == u;
                assert(ms[j] == u);
            }
        }
    }
    assert forall|l2: u64| #[trigger] w.active.contains(l2) implies w.lobbies.contains_key(l2) by {
        assert(v.lobbies.contains_key(l2));
    }
    assert forall|l2: u64| #[trigger] w.lobbies.contains_key(l2) implies w.active.contains(l2) by {
        assert(v.lobbies.contains_key(l2));
    }
    assert forall|l2: u64| #[trigger] w.sessions.contains_key(l2) implies w.lobbies.contains_key(
        l2,
    ) && w.lobbies[l2].status is InMatch by {
        assert(v.lobbies.contains_key(l2));
    }
    assert forall|l2: u64|
        #[trigger] w.lobbies.contains_key(l2) && w.lobbies[l2].status is InMatch
        implies w.sessions.contains_key(l2) by {
        assert(v.lobbies.contains_key(l2));
        if l2 == l {
            assert(v.lobbies[l2].status is InMatch);
        }
    }
}

/// The lobby `sender` belongs to is untouched when a different user, not a
/// member of it, leaves their own lobby.
proof fn lemma_leave_other_lobby_untouched(v: DirectoryV, user: Seq<char>, l: u64)
    requires
        inv(v),
        v.lobbies.contains_key(l),
        !v.lobbies[l].members.contains(user),
    ensures
        leave_effect(v, user).lobbies.contains_key(l),
        leave_effect(v, user).lobbies[l] == v.lobbies[l],
        !leave_effect(v, user).pointers.contains_key(user),
        leave_effect(v, user).next_id == v.next_id,
{
    if v.pointers.contains_key(user) {
        let l2 = v.pointers[user];
        assert(v.lobbies[l2].members.contains(user));
        assert(l2 != l);
    }
}

/// Stateless decline: validates the two usernames and produces the
/// `lobby_invitation`/`decline` notice owed to the original sender.
pub fn decline_invite(receiver: &String, sender: &String) -> (r: Result<Event, OpError>)
    ensures
        (!valid_username(sender@) || !valid_username(receiver@)) <==> (
        r matches Err(OpError::Validation)),
        valid_username(sender@) && valid_username(receiver@) ==> (r matches Ok(e) && e@ == (
        EventV {
            target: sender@,
            body: EventBodyV::LobbyInvitationDecline { sender: sender@, receiver: receiver@ },
        })),
{
    if !check_username(sender.as_str()) || !check_username(receiver.as_str()) {
        return Err(OpError::Validation);
    }
    Ok(
        Event {
            target: sender.clone(),
            body: EventBody::LobbyInvitationDecline {
                sender: sender.clone(),
                receiver: receiver.clone(),
            },
        },
    )
}

impl Directory {
    /// Invitation: the sender must have a current lobby and the receiver
    /// must not already sit in it; nothing is mutated, only the
    /// `lobby_invitation`/`receive` notice to the receiver is produced.
    pub fn invite(&self, sender: &String, receiver: &String) -> (r: Result<Event, OpError>)
        requires
            self.wf(),
        ensures
            (!valid_username(sender@) || !valid_username(receiver@)) <==> (
            r matches Err(OpError::Validation)),
            valid_username(sender@) && valid_username(receiver@) && !self@.pointers.contains_key(
                sender@,
            ) <==> (r matches Err(OpError::NotFound)),
            valid_username(sender@) && valid_username(receiver@) && self@.pointers.contains_key(
                sender@,
            ) && self@.lobbies[self@.pointers[sender@]].members.contains(receiver@) <==> (
            r matches Err(OpError::Conflict)),
            valid_username(sender@) && valid_username(receiver@) && self@.pointers.contains_key(
                sender@,
            ) && !self@.lobbies[self@.pointers[sender@]].members.contains(receiver@) ==> (
            r matches Ok(e) && e@ == (EventV {
                target: receiver@,
                body: EventBodyV::LobbyInvitationReceive { sender: sender@, receiver: receiver@ },
            })),
    {
        if !check_username(sender.as_str()) || !check_username(receiver.as_str()) {
            return Err(OpError::Validation);
        }
        let lid = match self.pointers.get(sender) {
            Some(l) => *l,
            None => {
                return Err(OpError::NotFound);
            },
        };
        let rec = match self.lobbies.get(&lid) {
            Some(rec) => rec,
            None => {
                proof {
                    assert(false);
                }
                return Err(OpError::NotFound);
            },
        };
        if index_of_string(&rec.members, receiver).is_some() {
            return Err(OpError::Conflict);
        }
        Ok(
            Event {
                target: receiver.clone(),
                body: EventBody::LobbyInvitationReceive {
                    sender: sender.clone(),
                    receiver: receiver.clone(),
                },
            },
        )
    }

    /// Acceptance: resolves the sender's current lobby, rejects a full,
    /// busy, or already-joined lobby, auto-leaves the receiver's prior lobby
    /// (dissolving an emptied one), then joins and repoints the receiver.
    /// Returns the joined lobby's snapshot and the owed events: the
    /// departure notices first, then one acceptance notice per prior member.
    #[verifier::loop_isolation(false)]
    #[verifier::rlimit(50)]
    pub fn accept_invite(&mut self, receiver: &String, sender: &String) -> (r: Result<
        (LobbySnapshot, Vec<Event>),
        OpError,
    >)
        requires
            old(self).wf(),
        ensures
            final(self).wf(),
            (!valid_username(sender@) || !valid_username(receiver@)) ==> (
            r matches Err(OpError::Validation)) && final(self)@ == old(self)@,
            valid_username(sender@) && valid_username(receiver@) && !old(
                self,
            )@.pointers.contains_key(sender@) ==> (r matches Err(OpError::NotFound)) && final(self)@ == old(self)@,
            valid_username(sender@) && valid_username(receiver@) && old(
                self,
            )@.pointers.contains_key(sender@) && !acceptable(old(self)@, receiver@, sender@) ==> (
            r matches Err(OpError::Conflict)) && final(self)@ == old(self)@,
            acceptable(old(self)@, receiver@, sender@) ==> final(self)@ == accept_effect(
                old(self)@,
                receiver@,
                sender@,
            ) && (r matches Ok(p) && snapshot_matches(
                p.0,
                old(self)@.pointers[sender@],
                accept_effect(old(self)@, receiver@, sender@).lobbies[old(self)@.pointers[sender@]],
            ) && events_view(p.1@) == leave_events(old(self)@, receiver@) + accept_events(
                old(self)@,
                receiver@,
                sender@,
            )),
    {
        let ghost v0 = self@;
        if !check_username(sender.as_str()) || !check_username(receiver.as_str()) {
            return Err(OpError::Validation);
        }
        let lid = match self.pointers.get(sender) {
            Some(l) => *l,
            None => {
                return Err(OpError::NotFound);
            },
        };
        let old_members = {
            let rec = match self.lobbies.get(&lid) {
                Some(rec) => rec,
                None => {
                    proof {
                        assert(false);
                    }
                    return Err(OpError::NotFound);
                },
            };
            if index_of_string(&rec.members, receiver).is_some() {
                return Err(OpError::Conflict);
            }
            if !(rec.status == LobbyStatus::Ready) {
                return Err(OpError::Conflict);
            }
            if rec.members.len() >= MAX_MEMBERS {
                return Err(OpError::Conflict);
            }
            clone_string_vec(&rec.members)
        };
        let mut evs = self.leave_process(receiver);
        proof {
            lemma_leave_other_lobby_untouched(v0, receiver@, lid);
        }
        let ghost mid = self@;
        {
            let rec2 = match self.lobbies.get(&lid) {
                Some(rec) => rec,
                None => {
                    proof {
                        assert(false);
                    }
                    return Err(OpError::NotFound);
                },
            };
            let mut new_members = clone_string_vec(&rec2.members);
            new_members.push(receiver.clone());
            let joined = LobbyRecord {
                name: rec2.name.clone(),
                leader: rec2.leader.clone(),
                status: rec2.status,
                members: new_members,
            };
            proof {
                assert(joined@.members =~= mid.lobbies[lid].members.push(receiver@));
            }
            self.lobbies.insert(lid, joined);
        }
        self.pointers.insert(receiver.clone(), lid);
        proof {
            lemma_join_preserves_inv(mid, receiver@, lid);
            assert(self@ =~= accept_effect(v0, receiver@, sender@));
        }
        let ghost aev = accept_events(v0, receiver@, sender@);
        let ghost lev = leave_events(v0, receiver@);
        let n = old_members.len();
        for i in 0..n
            invariant
                events_view(evs@) =~= lev + aev.subrange(0, i as int),
        {
            evs.push(
                Event {
                    target: old_members[i].clone(),
                    body: EventBody::LobbyInvitationAccept {
                        sender: sender.clone(),
                        receiver: receiver.clone(),
                    },
                },
            );
            proof {
                assert(evs@.last()@ == aev[i as int]);
                assert(events_view(evs@) =~= events_view(evs@.drop_last()).push(evs@.last()@));
                assert((lev + aev.subrange(0, i as int)).push(aev[i as int]) =~= lev
                    + aev.subrange(0, i + 1));
                assert(events_view(evs@) =~= lev + aev.subrange(0, i + 1));
            }
        }
        proof {
            assert(aev.subrange(0, n as int) =~= aev);
        }
        let snap = self.snapshot_of(lid);
        Ok((snap, evs))
    }
}


/// The directory after `target` is kicked: they leave their lobby and are
/// relocated into a fresh singleton lobby of their own.
pub open spec fn kick_effect(v: DirectoryV, target: Seq<char>) -> DirectoryV {
    create_effect(leave_effect(v, target), target)
}

/// The `lobby`/`kick_member` envelopes a kick owes: one per member of the
/// lobby other than the caller — the one addressed to the removed target is
/// their notice of removal.
pub open spec fn kick_events(v: DirectoryV, caller: Seq<char>, target: Seq<char>) -> Seq<EventV> {
    let ms = v.lobbies[v.pointers[caller]].members.remove_value(caller);
    Seq::new(
        ms.len(),
        |i: int|
            EventV {
                target: ms[i],
                body: EventBodyV::LobbyKickMember { sender: caller, receiver: target },
            },
    )
}

/// The directory after leadership of the caller's lobby passes to `target`,
/// in place: the lobby id and everything else stay put.
pub open spec fn promote_effect(v: DirectoryV, caller: Seq<char>, target: Seq<char>) -> DirectoryV {
    let l = v.pointers[caller];
    let r = v.lobbies[l];
    DirectoryV {
        lobbies: v.lobbies.insert(
            l,
            LobbyRecordV { name: r.name, leader: target, status: r.status, members: r.members },
        ),
        pointers: v.pointers,
        active: v.active,
        sessions: v.sessions,
        stats: v.stats,
        next_id: v.next_id,
    }
}

/// The `lobby`/`make_leader` envelopes a promotion owes: one per member
/// other than the caller, naming the new leader.
pub open spec fn promote_events(v: DirectoryV, caller: Seq<char>, target: Seq<char>) -> Seq<
    EventV,
> {
    let ms = v.lobbies[v.pointers[caller]].members.remove_value(caller);
    Seq::new(
        ms.len(),
        |i: int| EventV { target: ms[i], body: EventBodyV::LobbyMakeLeader { leader: target } },
    )
}

/// Handing leadership to a current member preserves the invariant.
proof fn lemma_promote_preserves_inv(v: DirectoryV, caller: Seq<char>, target: Seq<char>)
    requires
        inv(v),
        v.pointers.contains_key(caller),
        v.lobbies[v.pointers[caller]].members.contains(target),
    ensures
        inv(promote_effect(v, caller, target)),
{
    let l = v.pointers[caller];
    let w = promote_effect(v, caller, target);
    assert(lobby_ok(v, l));
    assert(lobby_ok(w, l));
    assert forall|l2: u64| #[trigger] w.lobbies.contains_key(l2) implies lobby_ok(w, l2) by {
        assert(v.lobbies.contains_key(l2));
        assert(lobby_ok(v, l2));
    }
    assert forall|u: Seq<char>| #[trigger] w.pointers.contains_key(u) implies valid_username(u)
        && w.lobbies.contains_key(w.pointers[u]) && w.lobbies[w.pointers[u]].members.contains(
        u,
    ) by {
        assert(v.pointers.contains_key(u));
    }
    assert forall|l2: u64| #[trigger] w.active.contains(l2) implies w.lobbies.contains_key(l2) by {
        assert(v.lobbies.contains_key(l2));
    }
    assert forall|l2: u64| #[trigger] w.lobbies.contains_key(l2) implies w.active.contains(l2) by {
        assert(v.lobbies.contains_key(l2));
    }
    assert forall|l2: u64| #[trigger] w.sessions.contains_key(l2) implies w.lobbies.contains_key(
        l2,
    ) && w.lobbies[l2].status is InMatch by {
        assert(v.lobbies.contains_key(l2));
    }
    assert forall|l2: u64|
        #[trigger] w.lobbies.contains_key(l2) && w.lobbies[l2].status is InMatch
        implies w.sessions.contains_key(l2) by {
        assert(v.lobbies.contains_key(l2));
        if l2 == l {
            assert(v.lobbies[l2].status is InMatch);
        }
    }
}

impl Directory {
    /// The caller's roster without the caller: who a kick or promotion
    /// notifies. The caller must sit in a lobby.
    #[verifier::loop_isolation(false)]
    fn roster_without_caller(&self, lid: u64, caller: &String) -> (r: Vec<String>)
        requires
            self.wf(),
            self@.lobbies.contains_key(lid),
            self@.lobbies[lid].members.contains(caller@),
        ensures
            r.deep_view() == self@.lobbies[lid].members.remove_value(caller@),
    {
        let rec = match self.lobbies.get(&lid) {
            Some(rec) => rec,
            None => {
                proof {
                    assert(false);
                }
                return Vec::new();
            },
        };
        let mut ms = clone_string_vec(&rec.members);
        let ghost pre = ms.deep_view();
        let idx = match index_of_string(&ms, caller) {
            Some(i) => i,
            None => {
                proof {
                    assert(false);
                }
                return Vec::new();
            },
        };
        let _ = ms.remove(idx);
        proof {
            pre.remove_ensures(idx as int);
            assert(ms.deep_view() =~= pre.remove(idx as int));
            lemma_remove_value_is_remove(pre, caller@, idx as int);
        }
        ms
    }

    /// Kick: the caller must lead their lobby and `target` must be a member.
    /// The target leaves (as if by `leave`, but without departure notices)
    /// and is relocated into a fresh singleton lobby; everyone else in the
    /// lobby, and the target as their removal notice, gets
    /// `lobby`/`kick_member`.
    #[verifier::loop_isolation(false)]
    #[verifier::rlimit(50)]
    pub fn kick(&mut self, caller: &String, target: &String) -> (r: Result<Vec<Event>, OpError>)
        requires
            old(self).wf(),
        ensures
            final(self).wf(),
            (!valid_username(caller@) || !valid_username(target@)) ==> (
            r matches Err(OpError::Validation)) && final(self)@ == old(self)@,
            valid_username(caller@) && valid_username(target@) && !old(
                self,
            )@.pointers.contains_key(caller@) ==> (r matches Err(OpError::NotFound)) && final(self)@
                == old(self)@,
            valid_username(caller@) && valid_username(target@) && old(
                self,
            )@.pointers.contains_key(caller@) && old(self)@.lobbies[old(
                self,
            )@.pointers[caller@]].leader != caller@ ==> (r matches Err(OpError::Authorization))
                && final(self)@ == old(self)@,
            valid_username(caller@) && valid_username(target@) && old(
                self,
            )@.pointers.contains_key(caller@) && old(self)@.lobbies[old(
                self,
            )@.pointers[caller@]].leader == caller@ && !old(self)@.lobbies[old(
                self,
            )@.pointers[caller@]].members.contains(target@) ==> (r matches Err(OpError::NotFound))
                && final(self)@ == old(self)@,
            kickable(old(self)@, caller@, target@) && old(self)@.next_id == u64::MAX ==> (
            r matches Err(OpError::Infrastructure)) && final(self)@ == old(self)@,
            kickable(old(self)@, caller@, target@) && old(self)@.next_id < u64::MAX ==> final(self)@
                == kick_effect(old(self)@, target@) && (r matches Ok(evs) && events_view(evs@)
                == kick_events(old(self)@, caller@, target@)),
    {
        let ghost v0 = self@;
        if !check_username(caller.as_str()) || !check_username(target.as_str()) {
            return Err(OpError::Validation);
        }
        let lid = match self.pointers.get(caller) {
            Some(l) => *l,
            None => {
                return Err(OpError::NotFound);
            },
        };
        {
            let rec = match self.lobbies.get(&lid) {
                Some(rec) => rec,
                None => {
                    proof {
                        assert(false);
                    }
                    return Err(OpError::NotFound);
                },
            };
            if !(rec.leader == *caller) {
                return Err(OpError::Authorization);
            }
            if index_of_string(&rec.members, target).is_none() {
                return Err(OpError::NotFound);
            }
        }
        if self.next_id == u64::MAX {
            return Err(OpError::Infrastructure);
        }
        let recipients = self.roster_without_caller(lid, caller);
        let _ = self.leave_process(target);
        proof {
            assert(leave_effect(v0, target@).next_id == v0.next_id);
            assert(!leave_effect(v0, target@).pointers.contains_key(target@));
        }
        let _ = self.make_singleton(target);
        proof {
            assert(self@ =~= kick_effect(v0, target@));
        }
        let ghost kev = kick_events(v0, caller@, target@);
        let mut evs: Vec<Event> = Vec::new();
        let n = recipients.len();
        for i in 0..n
            invariant
                events_view(evs@) =~= kev.subrange(0, i as int),
        {
            evs.push(
                Event {
                    target: recipients[i].clone(),
                    body: EventBody::LobbyKickMember {
                        sender: caller.clone(),
                        receiver: target.clone(),
                    },
                },
            );
            proof {
                assert(evs@.last()@ == kev[i as int]);
                assert(events_view(evs@) =~= events_view(evs@.drop_last()).push(evs@.last()@));
                assert(events_view(evs@) =~= kev.subrange(0, i + 1));
            }
        }
        proof {
            assert(kev.subrange(0, n as int) =~= kev);
        }
        Ok(evs)
    }

    /// Promotion: the caller must lead their lobby and `target` must be a
    /// member. Leadership moves in place — the lobby id stays stable — and
    /// every other member gets `lobby`/`make_leader`.
    #[verifier::loop_isolation(false)]
    pub fn promote(&mut self, caller: &String, target: &String) -> (r: Result<Vec<Event>, OpError>)
        requires
            old(self).wf(),
        ensures
            final(self).wf(),
            (!valid_username(caller@) || !valid_username(target@)) ==> (
            r matches Err(OpError::Validation)) && final(self)@ == old(self)@,
            valid_username(caller@) && valid_username(target@) && !old(
                self,
            )@.pointers.contains_key(caller@) ==> (r matches Err(OpError::NotFound)) && final(self)@
                == old(self)@,
            valid_username(caller@) && valid_username(target@) && old(
                self,
            )@.pointers.contains_key(caller@) && old(self)@.lobbies[old(
                self,
            )@.pointers[caller@]].leader != caller@ ==> (r matches Err(OpError::Authorization))
                && final(self)@ == old(self)@,
            valid_username(caller@) && valid_username(target@) && old(
                self,
            )@.pointers.contains_key(caller@) && old(self)@.lobbies[old(
                self,
            )@.pointers[caller@]].leader == caller@ && !old(self)@.lobbies[old(
                self,
            )@.pointers[caller@]].members.contains(target@) ==> (r matches Err(OpError::NotFound))
                && final(self)@ == old(self)@,
            kickable(old(self)@, caller@, target@) ==> final(self)@ == promote_effect(
                old(self)@,
                caller@,
                target@,
            ) && (r matches Ok(evs) && events_view(evs@) == promote_events(
                old(self)@,
                caller@,
                target@,
            )),
    {
        let ghost v0 = self@;
        if !check_username(caller.as_str()) || !check_username(target.as_str()) {
            return Err(OpError::Validation);
        }
        let lid = match self.pointers.get(caller) {
            Some(l) => *l,
            None => {
                return Err(OpError::NotFound);
            },
        };
        {
            let rec = match self.lobbies.get(&lid) {
                Some(rec) => rec,
                None => {
                    proof {
                        assert(false);
                    }
                    return Err(OpError::NotFound);
                },
            };
            if !(rec.leader == *caller) {
                return Err(OpError::Authorization);
            }
            if index_of_string(&rec.members, target).is_none() {
                return Err(OpError::NotFound);
            }
        }
        let recipients = self.roster_without_caller(lid, caller);
        {
            let rec = match self.lobbies.get(&lid) {
                Some(rec) => rec,
                None => {
                    proof {
                        assert(false);
                    }
                    return Err(OpError::NotFound);
                },
            };
            let promoted = LobbyRecord {
                name: rec.name.clone(),
                leader: target.clone(),
                status: rec.status,
                members: clone_string_vec(&rec.members),
            };
            self.lobbies.insert(lid, promoted);
        }
        proof {
            lemma_promote_preserves_inv(v0, caller@, target@);
            assert(self@ =~= promote_effect(v0, caller@, target@));
        }
        let ghost pev = promote_events(v0, caller@, target@);
        let mut evs: Vec<Event> = Vec::new();
        let n = recipients.len();
        for i in 0..n
            invariant
                events_view(evs@) =~= pev.subrange(0, i as int),
        {
            evs.push(
                Event {
                    target: recipients[i].clone(),
                    body: EventBody::LobbyMakeLeader { leader: target.clone() },
                },
            );
            proof {
                assert(evs@.last()@ == pev[i as int]);
                assert(events_view(evs@) =~= events_view(evs@.drop_last()).push(evs@.last()@));
                assert(events_view(evs@) =~= pev.subrange(0, i + 1));
            }
        }
        proof {
            assert(pev.subrange(0, n as int) =~= pev);
        }
        Ok(evs)
    }
}


/// The invariant never reads the transient-stats table: two directories
/// that agree elsewhere share it.
proof fn lemma_inv_ignores_stats(v: DirectoryV, w: DirectoryV)
    requires
        inv(v),
        w.lobbies == v.lobbies,
        w.pointers == v.pointers,
        w.active == v.active,
        w.sessions == v.sessions,
        w.next_id == v.next_id,
    ensures
        inv(w),
{
    assert forall|id: u64| #[trigger] w.lobbies.contains_key(id) implies lobby_ok(w, id) by {
        assert(v.lobbies.contains_key(id));
        assert(lobby_ok(v, id));
    }
    assert forall|u: Seq<char>| #[trigger] w.pointers.contains_key(u) implies valid_username(u)
        && w.lobbies.contains_key(w.pointers[u]) && w.lobbies[w.pointers[u]].members.contains(
        u,
    ) by {
        assert(v.pointers.contains_key(u));
    }
    assert forall|id: u64| #[trigger] w.active.contains(id) implies w.lobbies.contains_key(id) by {
        assert(v.active.contains(id));
    }
    assert forall|id: u64| #[trigger] w.lobbies.contains_key(id) implies w.active.contains(id) by {
        assert(v.lobbies.contains_key(id));
    }
    assert forall|id: u64| #[trigger] w.sessions.contains_key(id) implies w.lobbies.contains_key(
        id,
    ) && w.lobbies[id].status is InMatch by {
        assert(v.sessions.contains_key(id));
    }
    assert forall|id: u64|
        #[trigger] w.lobbies.contains_key(id) && w.lobbies[id].status is InMatch
        implies w.sessions.contains_key(id) by {
        assert(v.lobbies.contains_key(id));
        assert(v.lobbies[id].status is InMatch);
    }
}

/// The caller may provision a game session: a well-formed name, a current
/// lobby they lead, and no session already bound to it (the lobby is then
/// `Ready`, by the invariant).
pub open spec fn provisionable(v: DirectoryV, caller: Seq<char>) -> bool {
    &&& valid_username(caller)
    &&& v.pointers.contains_key(caller)
    &&& v.lobbies[v.pointers[caller]].leader == caller
    &&& !v.sessions.contains_key(v.pointers[caller])
}

/// The loopback address the spawned simulation process is reachable at.
pub open spec fn server_address(port: u16) -> Seq<char> {
    "127.0.0.1:"@ + dec_rep(port as nat)
}

/// The directory after a game session on `port` is recorded for the
/// caller's lobby: the session is bound, the lobby turns `InMatch`, and all
/// members' stale transient state is cleared.
pub open spec fn record_effect(v: DirectoryV, caller: Seq<char>, port: u16) -> DirectoryV {
    let l = v.pointers[caller];
    let r = v.lobbies[l];
    DirectoryV {
        lobbies: v.lobbies.insert(
            l,
            LobbyRecordV {
                name: r.name,
                leader: r.leader,
                status: LobbyStatus::InMatch,
                members: r.members,
            },
        ),
        pointers: v.pointers,
        active: v.active,
        sessions: v.sessions.insert(
            l,
            GameServerV { address: server_address(port), host: caller },
        ),
        stats: v.stats.remove_keys(r.members.to_set()),
        next_id: v.next_id,
    }
}

/// The `game_server`/`create` envelopes a provisioning owes: one per member
/// other than the caller.
pub open spec fn server_events(v: DirectoryV, caller: Seq<char>, port: u16) -> Seq<EventV> {
    let ms = v.lobbies[v.pointers[caller]].members.remove_value(caller);
    Seq::new(
        ms.len(),
        |i: int|
            EventV {
                target: ms[i],
                body: EventBodyV::GameServerCreate {
                    address: server_address(port),
                    host: caller,
                },
            },
    )
}

/// The directory after the session of lobby `l` is dropped: the session
/// record goes, the lobby returns to `Ready`, and members' transient state
/// is cleared.
pub open spec fn drop_effect(v: DirectoryV, l: u64) -> DirectoryV {
    let r = v.lobbies[l];
    DirectoryV {
        lobbies: v.lobbies.insert(
            l,
            LobbyRecordV {
                name: r.name,
                leader: r.leader,
                status: LobbyStatus::Ready,
                members: r.members,
            },
        ),
        pointers: v.pointers,
        active: v.active,
        sessions: v.sessions.remove(l),
        stats: v.stats.remove_keys(r.members.to_set()),
        next_id: v.next_id,
    }
}

/// Binding a session to the ready lobby the caller leads preserves the
/// invariant.
proof fn lemma_record_preserves_inv(v: DirectoryV, caller: Seq<char>, port: u16)
    requires
        inv(v),
        provisionable(v, caller),
    ensures
        inv(record_effect(v, caller, port)),
{
    let l = v.pointers[caller];
    let w = record_effect(v, caller, port);
    assert(lobby_ok(v, l));
    assert(lobby_ok(w, l));
    assert forall|l2: u64| #[trigger] w.lobbies.contains_key(l2) implies lobby_ok(w, l2) by {
        assert(v.lobbies.contains_key(l2));
        assert(lobby_ok(v, l2));
    }
    assert forall|u: Seq<char>| #[trigger] w.pointers.contains_key(u) implies valid_username(u)
        && w.lobbies.contains_key(w.pointers[u]) && w.lobbies[w.pointers[u]].members.contains(
        u,
    ) by {
        assert(v.pointers.contains_key(u));
    }
    assert forall|l2: u64| #[trigger] w.active.contains(l2) implies w.lobbies.contains_key(l2) by {
        assert(v.lobbies.contains_key(l2));
    }
    assert forall|l2: u64| #[trigger] w.lobbies.contains_key(l2) implies w.active.contains(l2) by {
        assert(v.lobbies.contains_key(l2));
    }
    assert forall|l2: u64| #[trigger] w.sessions.contains_key(l2) implies w.lobbies.contains_key(
        l2,
    ) && w.lobbies[l2].status is InMatch by {
        if l2 != l {
            assert(v.sessions.contains_key(l2));
            assert(v.lobbies.contains_key(l2));
        }
    }
    assert forall|l2: u64|
        #[trigger] w.lobbies.contains_key(l2) && w.lobbies[l2].status is InMatch
        implies w.sessions.contains_key(l2) by {
        if l2 != l {
            assert(v.lobbies.contains_key(l2));
            assert(v.lobbies[l2].status is InMatch);
        }
    }
}

/// Unbinding the session of a live lobby preserves the invariant.
proof fn lemma_drop_preserves_inv(v: DirectoryV, l: u64)
    requires
        inv(v),
        v.lobbies.contains_key(l),
    ensures
        inv(drop_effect(v, l)),
{
    let w = drop_effect(v, l);
    assert(lobby_ok(v, l));
    assert(lobby_ok(w, l));
    assert forall|l2: u64| #[trigger] w.lobbies.contains_key(l2) implies lobby_ok(w, l2) by {
        assert(v.lobbies.contains_key(l2));
        assert(lobby_ok(v, l2));
    }
    assert forall|u: Seq<char>| #[trigger] w.pointers.contains_key(u) implies valid_username(u)
        && w.lobbies.contains_key(w.pointers[u]) && w.lobbies[w.pointers[u]].members.contains(
        u,
    ) by {
        assert(v.pointers.contains_key(u));
    }
    assert forall|l2: u64| #[trigger] w.active.contains(l2) implies w.lobbies.contains_key(l2) by {
        assert(v.lobbies.contains_key(l2));
    }
    assert forall|l2: u64| #[trigger] w.lobbies.contains_key(l2) implies w.active.contains(l2) by {
        assert(v.lobbies.contains_key(l2));
    }
    assert forall|l2: u64| #[trigger] w.sessions.contains_key(l2) implies w.lobbies.contains_key(
        l2,
    ) && w.lobbies[l2].status is InMatch by {
        assert(v.sessions.contains_key(l2));
        assert(v.lobbies.contains_key(l2));
        assert(l2 != l);
    }
    assert forall|l2: u64|
        #[trigger] w.lobbies.contains_key(l2) && w.lobbies[l2].status is InMatch
        implies w.sessions.contains_key(l2) by {
        assert(l2 != l);
        assert(v.lobbies.contains_key(l2));
        assert(v.lobbies[l2].status is InMatch);
    }
}

/// One more element of a roster folded into the set of cleared keys.
proof fn lemma_subrange_to_set_step(s: Seq<Seq<char>>, i: int)
    requires
        0 <= i < s.len(),
    ensures
        s.subrange(0, i + 1).to_set() =~= s.subrange(0, i).to_set().insert(s[i]),
{
    let a = s.subrange(0, i + 1);
    let b = s.subrange(0, i);
    assert forall|x: Seq<char>| a.to_set().contains(x) implies b.to_set().contains(x) || x
        == s[i] by {
        let j = choose|j: int| 0 <= j < a.len() && a[j] == x;
        if j < i {
            assert(b[j] == x);
        }
    }
    assert forall|x: Seq<char>| b.to_set().contains(x) || x == s[i] implies a.to_set().contains(
        x,
    ) by {
        if b.to_set().contains(x) {
            let j = choose|j: int| 0 <= j < b.len() && b[j] == x;
            assert(a[j] == x);
        } else {
            assert(a[i] == x);
        }
    }
}

impl Directory {
    /// Clears the transient in-match state of every listed member.
    #[verifier::loop_isolation(false)]
    fn clear_stats(&mut self, members: &Vec<String>)
        requires
            old(self).stats.wf(),
        ensures
            final(self).stats.wf(),
            final(self).stats@ == old(self).stats@.remove_keys(members.deep_view().to_set()),
            final(self).lobbies == old(self).lobbies,
            final(self).pointers == old(self).pointers,
            final(self).active == old(self).active,
            final(self).sessions == old(self).sessions,
            final(self).next_id == old(self).next_id,
    {
        let ghost s0 = self.stats@;
        let ghost mv = members.deep_view();
        proof {
            assert(s0.remove_keys(mv.subrange(0, 0).to_set()) =~= s0);
        }
        let n = members.len();
        for i in 0..n
            invariant
                self.stats.wf(),
                self.stats@ =~= s0.remove_keys(mv.subrange(0, i as int).to_set()),
                self.lobbies == old(self).lobbies,
                self.pointers == old(self).pointers,
                self.active == old(self).active,
                self.sessions == old(self).sessions,
                self.next_id == old(self).next_id,
        {
            self.stats.remove(&members[i]);
            proof {
                lemma_subrange_to_set_step(mv, i as int);
                assert(s0.remove_keys(mv.subrange(0, i as int).to_set()).remove(mv[i as int])
                    =~= s0.remove_keys(mv.subrange(0, i + 1).to_set()));
            }
        }
        proof {
            assert(mv.subrange(0, n as int) =~= mv);
        }
    }

    /// Pre-flight authorization for provisioning: the caller must lead
    /// their current lobby and no session may be bound to it yet. Returns
    /// the lobby id to provision for.
    pub fn authorize_game_server(&self, caller: &String) -> (r: Result<u64, OpError>)
        requires
            self.wf(),
        ensures
            !valid_username(caller@) <==> (r matches Err(OpError::Validation)),
            valid_username(caller@) && !self@.pointers.contains_key(caller@) <==> (
            r matches Err(OpError::NotFound)),
            valid_username(caller@) && self@.pointers.contains_key(caller@)
                && self@.lobbies[self@.pointers[caller@]].leader != caller@ <==> (
            r matches Err(OpError::Authorization)),
            valid_username(caller@) && self@.pointers.contains_key(caller@)
                && self@.lobbies[self@.pointers[caller@]].leader == caller@
                && self@.sessions.contains_key(self@.pointers[caller@]) <==> (
            r matches Err(OpError::Conflict)),
            provisionable(self@, caller@) <==> (r matches Ok(l) && l == self@.pointers[caller@]),
    {
        if !check_username(caller.as_str()) {
            return Err(OpError::Validation);
        }
        let lid = match self.pointers.get(caller) {
            Some(l) => *l,
            None => {
                return Err(OpError::NotFound);
            },
        };
        let rec = match self.lobbies.get(&lid) {
            Some(rec) => rec,
            None => {
                proof {
                    assert(false);
                }
                return Err(OpError::NotFound);
            },
        };
        if !(rec.leader == *caller) {
            return Err(OpError::Authorization);
        }
        if self.sessions.contains_key(&lid) {
            return Err(OpError::Conflict);
        }
        Ok(lid)
    }

    /// Records the game session the app spawned on `port` for the caller's
    /// lobby. Every authorization check is re-made against the current
    /// state, so of two racing calls exactly one can succeed: the second
    /// observes the bound session and gets the conflict error. On success
    /// the lobby turns `InMatch`, members' stale transient state is cleared,
    /// and every other member is owed `game_server`/`create`.
    #[verifier::loop_isolation(false)]
    #[verifier::rlimit(50)]
    pub fn record_game_server(&mut self, caller: &String, port: u16) -> (r: Result<
        (GameServer, Vec<Event>),
        OpError,
    >)
        requires
            old(self).wf(),
        ensures
            final(self).wf(),
            !valid_username(caller@) ==> (r matches Err(OpError::Validation)) && final(self)@
                == old(self)@,
            valid_username(caller@) && !old(self)@.pointers.contains_key(caller@) ==> (
            r matches Err(OpError::NotFound)) && final(self)@ == old(self)@,
            valid_username(caller@) && old(self)@.pointers.contains_key(caller@) && old(
                self,
            )@.lobbies[old(self)@.pointers[caller@]].leader != caller@ ==> (
            r matches Err(OpError::Authorization)) && final(self)@ == old(self)@,
            valid_username(caller@) && old(self)@.pointers.contains_key(caller@) && old(
                self,
            )@.lobbies[old(self)@.pointers[caller@]].leader == caller@ && old(
                self,
            )@.sessions.contains_key(old(self)@.pointers[caller@]) ==> (
            r matches Err(OpError::Conflict)) && final(self)@ == old(self)@,
            provisionable(old(self)@, caller@) ==> final(self)@ == record_effect(
                old(self)@,
                caller@,
                port,
            ) && (r matches Ok(p) && p.0@ == (GameServerV {
                address: server_address(port),
                host: caller@,
            }) && events_view(p.1@) == server_events(old(self)@, caller@, port)),
    {
        let ghost v0 = self@;
        let lid = match self.authorize_game_server(caller) {
            Ok(l) => l,
            Err(e) => {
                return Err(e);
            },
        };
        let mut address = String::from_str("127.0.0.1:");
        let port_str = u64_to_dec(port as u64);
        address.append(port_str.as_str());
        let server = GameServer { address, host: caller.clone() };
        proof {
            assert(server@.address =~= server_address(port));
        }
        let recipients = self.roster_without_caller(lid, caller);
        let members = {
            let rec = match self.lobbies.get(&lid) {
                Some(rec) => rec,
                None => {
                    proof {
                        assert(false);
                    }
                    return Err(OpError::NotFound);
                },
            };
            clone_string_vec(&rec.members)
        };
        {
            let rec = match self.lobbies.get(&lid) {
                Some(rec) => rec,
                None => {
                    proof {
                        assert(false);
                    }
                    return Err(OpError::NotFound);
                },
            };
            let in_match = LobbyRecord {
                name: rec.name.clone(),
                leader: rec.leader.clone(),
                status: LobbyStatus::InMatch,
                members: clone_string_vec(&rec.members),
            };
            self.lobbies.insert(lid, in_match);
        }
        self.sessions.insert(
            lid,
            GameServer { address: server.address.clone(), host: caller.clone() },
        );
        self.clear_stats(&members);
        proof {
            lemma_record_preserves_inv(v0, caller@, port);
            assert(self@ =~= record_effect(v0, caller@, port));
        }
        let ghost sev = server_events(v0, caller@, port);
        let mut evs: Vec<Event> = Vec::new();
        let n = recipients.len();
        for i in 0..n
            invariant
                events_view(evs@) =~= sev.subrange(0, i as int),
        {
            evs.push(
                Event {
                    target: recipients[i].clone(),
                    body: EventBody::GameServerCreate {
                        address: server.address.clone(),
                        host: caller.clone(),
                    },
                },
            );
            proof {
                assert(evs@.last()@ == sev[i as int]);
                assert(events_view(evs@) =~= events_view(evs@.drop_last()).push(evs@.last()@));
                assert(events_view(evs@) =~= sev.subrange(0, i + 1));
            }
        }
        proof {
            assert(sev.subrange(0, n as int) =~= sev);
        }
        Ok((server, evs))
    }

    /// Drops the game session of lobby `lobby_id`: the session record goes,
    /// the lobby returns to `Ready`, and members' transient state is
    /// cleared.
    pub fn drop_game_server(&mut self, lobby_id: u64) -> (r: Result<(), OpError>)
        requires
            old(self).wf(),
        ensures
            final(self).wf(),
            !old(self)@.lobbies.contains_key(lobby_id) <==> (r matches Err(OpError::NotFound)),
            !old(self)@.lobbies.contains_key(lobby_id) ==> final(self)@ == old(self)@,
            old(self)@.lobbies.contains_key(lobby_id) ==> (r matches Ok(u)) && final(self)@
                == drop_effect(old(self)@, lobby_id),
    {
        let ghost v0 = self@;
        let members = {
            let rec = match self.lobbies.get(&lobby_id) {
                Some(rec) => rec,
                None => {
                    return Err(OpError::NotFound);
                },
            };
            clone_string_vec(&rec.members)
        };
        {
            let rec = match self.lobbies.get(&lobby_id) {
                Some(rec) => rec,
                None => {
                    proof {
                        assert(false);
                    }
                    return Err(OpError::NotFound);
                },
            };
            let ready = LobbyRecord {
                name: rec.name.clone(),
                leader: rec.leader.clone(),
                status: LobbyStatus::Ready,
                members: clone_string_vec(&rec.members),
            };
            self.lobbies.insert(lobby_id, ready);
        }
        self.sessions.remove(&lobby_id);
        self.clear_stats(&members);
        proof {
            lemma_drop_preserves_inv(v0, lobby_id);
            assert(self@ =~= drop_effect(v0, lobby_id));
        }
        Ok(())
    }

    /// Saves a member's transient in-match blob: allowed only while their
    /// lobby is in a match.
    pub fn save_character_stats(&mut self, user: &String, blob: &String) -> (r: Result<
        (),
        OpError,
    >)
        requires
            old(self).wf(),
        ensures
            final(self).wf(),
            !old(self)@.pointers.contains_key(user@) <==> (r matches Err(OpError::NotFound)),
            old(self)@.pointers.contains_key(user@) && !(old(self)@.lobbies[old(
                self,
            )@.pointers[user@]].status is InMatch) <==> (r matches Err(OpError::Conflict)),
            r is Err ==> final(self)@ == old(self)@,
            r is Ok ==> final(self)@.stats == old(self)@.stats.insert(user@, blob@) && final(self)@.lobbies == old(self)@.lobbies && final(self)@.pointers == old(self)@.pointers
                && final(self)@.active == old(self)@.active && final(self)@.sessions == old(
                self,
            )@.sessions && final(self)@.next_id == old(self)@.next_id,
    {
        let lid = match self.pointers.get(user) {
            Some(l) => *l,
            None => {
                return Err(OpError::NotFound);
            },
        };
        {
            let rec = match self.lobbies.get(&lid) {
                Some(rec) => rec,
                None => {
                    proof {
                        assert(false);
                    }
                    return Err(OpError::NotFound);
                },
            };
            if !(rec.status == LobbyStatus::InMatch) {
                return Err(OpError::Conflict);
            }
        }
        let ghost v0 = self@;
        self.stats.insert(user.clone(), blob.clone());
        proof {
            lemma_inv_ignores_stats(v0, self@);
        }
        Ok(())
    }

    /// Forgets a user's transient in-match state.
    pub fn remove_character_stats(&mut self, user: &String)
        requires
            old(self).wf(),
        ensures
            final(self).wf(),
            final(self)@.stats == old(self)@.stats.remove(user@),
            final(self)@.lobbies == old(self)@.lobbies,
            final(self)@.pointers == old(self)@.pointers,
            final(self)@.active == old(self)@.active,
            final(self)@.sessions == old(self)@.sessions,
            final(self)@.next_id == old(self)@.next_id,
    {
        let ghost v0 = self@;
        self.stats.remove(user);
        proof {
            lemma_inv_ignores_stats(v0, self@);
        }
    }
}

} // verus!
