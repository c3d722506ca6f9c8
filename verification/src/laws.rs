//! The directory's guarantees, stated on their own: pointer/roster
//! consistency, the non-emptiness of indexed lobbies, the capacity bound,
//! dissolution on the last departure, deterministic leader succession, and
//! the session/status correspondence.

use vstd::prelude::*;

use crate::directory::{
    Directory, DirectoryV, MAX_MEMBERS, inv, leave_effect, leave_events, lobby_ok,
};
use crate::text::{
    json_safe, lemma_lex_le_antisymmetric, lemma_lex_min_contains, lemma_lex_min_le,
    lemma_valid_username_json_safe, lex_le, lex_min, valid_username,
};

verus! {

/// Every user with a lobby pointer points at a lobby that is present in the
/// directory and lists them as a member.
pub proof fn law_pointer_references_live_lobby(d: &Directory, u: Seq<char>)
    requires
        d.wf(),
        d@.pointers.contains_key(u),
    ensures
        d@.lobbies.contains_key(d@.pointers[u]),
        d@.lobbies[d@.pointers[u]].members.contains(u),
{
    d.wf_implies_inv();
}

/// Every member of every lobby holds a pointer, and it names that lobby: so
/// each user belongs to exactly one lobby at a time.
pub proof fn law_member_has_unique_pointer(d: &Directory, id: u64, u: Seq<char>)
    requires
        d.wf(),
        d@.lobbies.contains_key(id),
        d@.lobbies[id].members.contains(u),
    ensures
        d@.pointers.contains_key(u),
        d@.pointers[u] == id,
{
    d.wf_implies_inv();
    assert(lobby_ok(d@, id));
    let i = choose|i: int| 0 <= i < d@.lobbies[id].members.len() && d@.lobbies[id].members[i] == u;
    assert(d@.pointers.contains_key(d@.lobbies[id].members[i]));
}

/// No user is listed in two different lobbies.
pub proof fn law_membership_unique(d: &Directory, id1: u64, id2: u64, u: Seq<char>)
    requires
        d.wf(),
        d@.lobbies.contains_key(id1),
        d@.lobbies.contains_key(id2),
        d@.lobbies[id1].members.contains(u),
        d@.lobbies[id2].members.contains(u),
    ensures
        id1 == id2,
{
    law_member_has_unique_pointer(d, id1, u);
    law_member_has_unique_pointer(d, id2, u);
}

/// Every lobby in the active-lobby index is live and has a non-empty
/// membership set.
pub proof fn law_active_lobby_non_empty(d: &Directory, id: u64)
    requires
        d.wf(),
        d@.active.contains(id),
    ensures
        d@.lobbies.contains_key(id),
        d@.lobbies[id].members.len() >= 1,
{
    d.wf_implies_inv();
    assert(lobby_ok(d@, id));
}

/// No lobby's membership ever exceeds the capacity.
pub proof fn law_capacity_bound(d: &Directory, id: u64)
    requires
        d.wf(),
        d@.lobbies.contains_key(id),
    ensures
        d@.lobbies[id].members.len() <= MAX_MEMBERS,
{
    d.wf_implies_inv();
    assert(lobby_ok(d@, id));
}

/// A departure by the sole member dissolves the lobby: the record, the
/// user's pointer, the index entry, and any bound session are all gone.
pub proof fn law_sole_leave_dissolves(v: DirectoryV, user: Seq<char>)
    requires
        inv(v),
        v.pointers.contains_key(user),
        v.lobbies[v.pointers[user]].members.len() == 1,
    ensures
        !leave_effect(v, user).lobbies.contains_key(v.pointers[user]),
        !leave_effect(v, user).pointers.contains_key(user),
        !leave_effect(v, user).active.contains(v.pointers[user]),
        !leave_effect(v, user).sessions.contains_key(v.pointers[user]),
{
    let l = v.pointers[user];
    let r = v.lobbies[l];
    assert(v.lobbies.contains_key(l));
    assert(lobby_ok(v, l));
    assert(r.members.contains(user));
    r.members.index_of_first_ensures(user);
    let ms = r.members.remove_value(user);
    assert(ms.len() == 0);
    let w = leave_effect(v, user);
    assert(!w.active.contains(l)) by {
        assert(v.active.contains(l));
        v.active.index_of_first_ensures(l);
        let ai = v.active.index_of_first(l)->Some_0;
        v.active.remove_ensures(ai);
        if w.active.contains(l) {
            let j = choose|j: int| 0 <= j < w.active.len() && w.active[j] == l;
            if j < ai {
                assert(v.active[j] == l && v.active[ai] == l);
            } else {
                assert(v.active[j + 1] == l && v.active[ai] == l);
            }
        }
    }
}

/// When a leader departs and members remain, exactly one new leader is
/// elected — the lexicographically smallest remaining member, below every
/// other remaining member and equalled by none — and every remaining member
/// keeps their pointer to the same lobby.
pub proof fn law_leader_succession(v: DirectoryV, user: Seq<char>)
    requires
        inv(v),
        v.pointers.contains_key(user),
        v.lobbies[v.pointers[user]].leader == user,
        v.lobbies[v.pointers[user]].members.len() > 1,
    ensures
        leave_effect(v, user).lobbies.contains_key(v.pointers[user]),
        leave_effect(v, user).lobbies[v.pointers[user]].members
            == v.lobbies[v.pointers[user]].members.remove_value(user),
        leave_effect(v, user).lobbies[v.pointers[user]].leader == lex_min(
            v.lobbies[v.pointers[user]].members.remove_value(user),
        ),
        leave_effect(v, user).lobbies[v.pointers[user]].members.contains(
            leave_effect(v, user).lobbies[v.pointers[user]].leader,
        ),
        forall|m: Seq<char>| #[trigger]
            leave_effect(v, user).lobbies[v.pointers[user]].members.contains(m) ==> lex_le(
                leave_effect(v, user).lobbies[v.pointers[user]].leader,
                m,
            ) && (lex_le(m, leave_effect(v, user).lobbies[v.pointers[user]].leader) ==> m
                == leave_effect(v, user).lobbies[v.pointers[user]].leader),
        forall|m: Seq<char>|
            leave_effect(v, user).lobbies[v.pointers[user]].members.contains(m)
                ==> leave_effect(v, user).pointers.contains_key(m) && leave_effect(
                v,
                user,
            ).pointers[m] == v.pointers[user],
{
    let l = v.pointers[user];
    let r = v.lobbies[l];
    assert(v.lobbies.contains_key(l));
    assert(lobby_ok(v, l));
    assert(r.members.contains(user));
    r.members.index_of_first_ensures(user);
    let i0 = r.members.index_of_first(user)->Some_0;
    r.members.remove_ensures(i0);
    let ms = r.members.remove_value(user);
    assert(ms.len() == r.members.len() - 1);
    let w = leave_effect(v, user);
    lemma_lex_min_contains(ms);
    assert forall|m: Seq<char>| #[trigger] w.lobbies[l].members.contains(m) implies lex_le(
        w.lobbies[l].leader,
        m,
    ) && (lex_le(m, w.lobbies[l].leader) ==> m == w.lobbies[l].leader) by {
        let j = choose|j: int| 0 <= j < ms.len() && ms[j] == m;
        lemma_lex_min_le(ms, j);
        if lex_le(m, lex_min(ms)) {
            lemma_lex_le_antisymmetric(m, lex_min(ms));
        }
    }
    assert forall|m: Seq<char>| w.lobbies[l].members.contains(m) implies w.pointers.contains_key(
        m,
    ) && w.pointers[m] == l by {
        let j = choose|j: int| 0 <= j < ms.len() && ms[j] == m;
        let j2: int = if j < i0 {
            j
        } else {
            j + 1
        };
        assert(r.members[j2] == m);
        assert(v.pointers.contains_key(m) && v.pointers[m] == l);
        assert(m != user) by {
            if m == user {
                assert(r.members[i0] == user);
                assert(r.members.no_duplicates());
            }
        }
    }
}

/// A game session exists for a lobby exactly while that lobby's status is
/// `InMatch`.
pub proof fn law_session_iff_in_match(d: &Directory, id: u64)
    requires
        d.wf(),
    ensures
        d@.sessions.contains_key(id) <==> (d@.lobbies.contains_key(id) && d@.lobbies[id].status
            is InMatch),
{
    d.wf_implies_inv();
}

/// Every departure notice targets a valid username, so — by the envelope
/// round-trip law — every envelope a departure puts on the bus is one the
/// dispatcher decodes back to its target and data.
pub proof fn law_leave_events_deliverable(v: DirectoryV, user: Seq<char>, i: int)
    requires
        inv(v),
        0 <= i < leave_events(v, user).len(),
    ensures
        valid_username(leave_events(v, user)[i].target),
        json_safe(leave_events(v, user)[i].target),
{
    let l = v.pointers[user];
    let r = v.lobbies[l];
    assert(v.lobbies.contains_key(l));
    assert(lobby_ok(v, l));
    r.members.index_of_first_ensures(user);
    let i0 = r.members.index_of_first(user)->Some_0;
    r.members.remove_ensures(i0);
    let ms = r.members.remove_value(user);
    let m = leave_events(v, user)[i].target;
    assert(m == ms[i]);
    let j: int = if i < i0 {
        i
    } else {
        i + 1
    };
    assert(r.members[j] == m);
    assert(v.pointers.contains_key(m));
    lemma_valid_username_json_safe(m);
}

} // verus!
