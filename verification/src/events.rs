//! The event fanout envelopes: every state change is pushed to affected
//! clients as `{"username": target, "data": {resource, action, payload}}`.
//! The encoder is verified against an exact character-level specification of
//! that wire format.

use vstd::prelude::*;

use crate::model::clone_string_vec;

verus! {

/// What a fanout event tells its target, one variant per observed
/// (resource, action) pair of the wire contract.
pub enum EventBody {
    LobbyInvitationReceive { sender: String, receiver: String },
    LobbyInvitationAccept { sender: String, receiver: String },
    LobbyInvitationDecline { sender: String, receiver: String },
    LobbyLeave { username: String, leader: String, members: Vec<String> },
    LobbyMakeLeader { leader: String },
    LobbyKickMember { sender: String, receiver: String },
    GameServerCreate { address: String, host: String },
    FriendRequestReceive { sender: String, receiver: String },
    FriendRequestAccept { sender: String, receiver: String },
    FriendRequestDecline { sender: String, receiver: String },
    FriendRemoved { username: String },
}

/// The mathematical value of an [`EventBody`].
pub enum EventBodyV {
    LobbyInvitationReceive { sender: Seq<char>, receiver: Seq<char> },
    LobbyInvitationAccept { sender: Seq<char>, receiver: Seq<char> },
    LobbyInvitationDecline { sender: Seq<char>, receiver: Seq<char> },
    LobbyLeave { username: Seq<char>, leader: Seq<char>, members: Seq<Seq<char>> },
    LobbyMakeLeader { leader: Seq<char> },
    LobbyKickMember { sender: Seq<char>, receiver: Seq<char> },
    GameServerCreate { address: Seq<char>, host: Seq<char> },
    FriendRequestReceive { sender: Seq<char>, receiver: Seq<char> },
    FriendRequestAccept { sender: Seq<char>, receiver: Seq<char> },
    FriendRequestDecline { sender: Seq<char>, receiver: Seq<char> },
    FriendRemoved { username: Seq<char> },
}

impl View for EventBody {
    type V = EventBodyV;

    open spec fn view(&self) -> EventBodyV {
        match self {
            EventBody::LobbyInvitationReceive { sender, receiver } => (
            EventBodyV::LobbyInvitationReceive { sender: sender@, receiver: receiver@ }),
            EventBody::LobbyInvitationAccept { sender, receiver } => (
            EventBodyV::LobbyInvitationAccept { sender: sender@, receiver: receiver@ }),
            EventBody::LobbyInvitationDecline { sender, receiver } => (
            EventBodyV::LobbyInvitationDecline { sender: sender@, receiver: receiver@ }),
            EventBody::LobbyLeave { username, leader, members } => (
            EventBodyV::LobbyLeave {
                username: username@,
                leader: leader@,
                members: members.deep_view(),
            }),
            EventBody::LobbyMakeLeader { leader } => (
            EventBodyV::LobbyMakeLeader { leader: leader@ }),
            EventBody::LobbyKickMember { sender, receiver } => (
            EventBodyV::LobbyKickMember { sender: sender@, receiver: receiver@ }),
            EventBody::GameServerCreate { address, host } => (
            EventBodyV::GameServerCreate { address: address@, host: host@ }),
            EventBody::FriendRequestReceive { sender, receiver } => (
            EventBodyV::FriendRequestReceive { sender: sender@, receiver: receiver@ }),
            EventBody::FriendRequestAccept { sender, receiver } => (
            EventBodyV::FriendRequestAccept { sender: sender@, receiver: receiver@ }),
            EventBody::FriendRequestDecline { sender, receiver } => (
            EventBodyV::FriendRequestDecline { sender: sender@, receiver: receiver@ }),
            EventBody::FriendRemoved { username } => (
            EventBodyV::FriendRemoved { username: username@ }),
        }
    }
}

/// One envelope on the fanout bus: the target username and the event body.
pub struct Event {
    pub target: String,
    pub body: EventBody,
}

/// The mathematical value of an [`Event`].
pub struct EventV {
    pub target: Seq<char>,
    pub body: EventBodyV,
}

impl View for Event {
    type V = EventV;

    open spec fn view(&self) -> EventV {
        EventV { target: self.target@, body: self.body@ }
    }
}

/// The mathematical values of a sequence of envelopes.
pub open spec fn events_view(s: Seq<Event>) -> Seq<EventV> {
    s.map_values(|e: Event| e@)
}

/// A JSON string literal: the sequence wrapped in quotes.
pub open spec fn json_str(s: Seq<char>) -> Seq<char> {
    "\""@ + s + "\""@
}

/// The items of a JSON array of strings, comma-separated.
pub open spec fn members_items(ms: Seq<Seq<char>>) -> Seq<char>
    decreases ms.len(),
{
    if ms.len() == 0 {
        Seq::empty()
    } else if ms.len() == 1 {
        json_str(ms[0])
    } else {
        members_items(ms.drop_last()) + ","@ + json_str(ms.last())
    }
}

/// A JSON array of strings.
pub open spec fn members_json(ms: Seq<Seq<char>>) -> Seq<char> {
    "["@ + members_items(ms) + "]"@
}

/// A `{"sender":…,"receiver":…}` payload.
pub open spec fn sr_payload(sender: Seq<char>, receiver: Seq<char>) -> Seq<char> {
    "{\"sender\":"@ + json_str(sender) + ",\"receiver\":"@ + json_str(receiver) + "}"@
}

/// The `data` object of an envelope.
pub open spec fn data_json(resource: Seq<char>, action: Seq<char>, payload: Seq<char>) -> Seq<
    char,
> {
    "{\"resource\":"@ + json_str(resource) + ",\"action\":"@ + json_str(action) + ",\"payload\":"@
        + payload + "}"@
}

/// The `data` object for each event body.
pub open spec fn body_json(b: EventBodyV) -> Seq<char> {
    match b {
        EventBodyV::LobbyInvitationReceive { sender, receiver } => data_json(
            "lobby_invitation"@,
            "receive"@,
            sr_payload(sender, receiver),
        ),
        EventBodyV::LobbyInvitationAccept { sender, receiver } => data_json(
            "lobby_invitation"@,
            "accept"@,
            sr_payload(sender, receiver),
        ),
        EventBodyV::LobbyInvitationDecline { sender, receiver } => data_json(
            "lobby_invitation"@,
            "decline"@,
            sr_payload(sender, receiver),
        ),
        EventBodyV::LobbyLeave { username, leader, members } => data_json(
            "lobby"@,
            "leave"@,
            "{\"username\":"@ + json_str(username) + ",\"leader\":"@ + json_str(leader)
                + ",\"members\":"@ + members_json(members) + "}"@,
        ),
        EventBodyV::LobbyMakeLeader { leader } => data_json(
            "lobby"@,
            "make_leader"@,
            "{\"leader\":"@ + json_str(leader) + "}"@,
        ),
        EventBodyV::LobbyKickMember { sender, receiver } => data_json(
            "lobby"@,
            "kick_member"@,
            sr_payload(sender, receiver),
        ),
        EventBodyV::GameServerCreate { address, host } => data_json(
            "game_server"@,
            "create"@,
            "{\"game_server\":{\"address\":"@ + json_str(address) + ",\"host\":"@ + json_str(host)
                + "}}"@,
        ),
        EventBodyV::FriendRequestReceive { sender, receiver } => data_json(
            "friend_request"@,
            "receive"@,
            sr_payload(sender, receiver),
        ),
        EventBodyV::FriendRequestAccept { sender, receiver } => data_json(
            "friend_request"@,
            "accept"@,
            sr_payload(sender, receiver),
        ),
        EventBodyV::FriendRequestDecline { sender, receiver } => data_json(
            "friend_request"@,
            "decline"@,
            sr_payload(sender, receiver),
        ),
        EventBodyV::FriendRemoved { username } => data_json(
            "friend"@,
            "removed"@,
            "{\"username\":"@ + json_str(username) + "}"@,
        ),
    }
}

/// The whole envelope as it travels on the bus.
pub open spec fn envelope_json(e: EventV) -> Seq<char> {
    "{\"username\":"@ + json_str(e.target) + ",\"data\":"@ + body_json(e.body) + "}"@
}

/// Appends `s` wrapped in quotes.
fn push_json_str(out: &mut String, s: &str)
    ensures
        final(out)@ == old(out)@ + json_str(s@),
{
    out.append("\"");
    out.append(s);
    out.append("\"");
    proof {
        assert(out@ =~= old(out)@ + json_str(s@));
    }
}

/// Appends the JSON array of the member usernames.
fn push_members_json(out: &mut String, ms: &Vec<String>)
    ensures
        final(out)@ == old(out)@ + members_json(ms.deep_view()),
{
    let ghost base: Seq<char> = out@;
    out.append("[");
    let n = ms.len();
    for i in 0..n
        invariant
            n == ms@.len(),
            out@ =~= base + "["@ + members_items(ms.deep_view().subrange(0, i as int)),
    {
        if i > 0 {
            out.append(",");
        }
        push_json_str(out, ms[i].as_str());
        proof {
            let mv = ms.deep_view();
            assert(mv.subrange(0, i + 1).drop_last() =~= mv.subrange(0, i as int));
            assert(mv.subrange(0, i + 1).last() == mv[i as int]);
            if i == 0 {
                assert(members_items(mv.subrange(0, 1)) =~= json_str(mv[0]));
            }
            assert(out@ =~= base + "["@ + members_items(mv.subrange(0, i + 1)));
        }
    }
    out.append("]");
    proof {
        assert(ms.deep_view().subrange(0, ms.deep_view().len() as int) =~= ms.deep_view());
        assert(out@ =~= old(out)@ + members_json(ms.deep_view()));
    }
}

/// Appends a `{"sender":…,"receiver":…}` payload.
fn push_sr_payload(out: &mut String, sender: &str, receiver: &str)
    ensures
        final(out)@ == old(out)@ + sr_payload(sender@, receiver@),
{
    out.append("{\"sender\":");
    push_json_str(out, sender);
    out.append(",\"receiver\":");
    push_json_str(out, receiver);
    out.append("}");
    proof {
        assert(out@ =~= old(out)@ + sr_payload(sender@, receiver@));
    }
}

/// Renders the `data` object of an envelope.
fn encode_body(b: &EventBody) -> (r: String)
    ensures
        r@ == body_json(b@),
{
    let mut out = String::new();
    out.append("{\"resource\":");
    match b {
        EventBody::LobbyInvitationReceive { .. } | EventBody::LobbyInvitationAccept { .. }
        | EventBody::LobbyInvitationDecline { .. } => push_json_str(&mut out, "lobby_invitation"),
        EventBody::LobbyLeave { .. } | EventBody::LobbyMakeLeader { .. }
        | EventBody::LobbyKickMember { .. } => push_json_str(&mut out, "lobby"),
        EventBody::GameServerCreate { .. } => push_json_str(&mut out, "game_server"),
        EventBody::FriendRequestReceive { .. } | EventBody::FriendRequestAccept { .. }
        | EventBody::FriendRequestDecline { .. } => push_json_str(&mut out, "friend_request"),
        EventBody::FriendRemoved { .. } => push_json_str(&mut out, "friend"),
    }
    out.append(",\"action\":");
    match b {
        EventBody::LobbyInvitationReceive { .. } | EventBody::FriendRequestReceive { .. } => {
            push_json_str(&mut out, "receive")
        },
        EventBody::LobbyInvitationAccept { .. } | EventBody::FriendRequestAccept { .. } => {
            push_json_str(&mut out, "accept")
        },
        EventBody::LobbyInvitationDecline { .. } | EventBody::FriendRequestDecline { .. } => {
            push_json_str(&mut out, "decline")
        },
        EventBody::LobbyLeave { .. } => push_json_str(&mut out, "leave"),
        EventBody::LobbyMakeLeader { .. } => push_json_str(&mut out, "make_leader"),
        EventBody::LobbyKickMember { .. } => push_json_str(&mut out, "kick_member"),
        EventBody::GameServerCreate { .. } => push_json_str(&mut out, "create"),
        EventBody::FriendRemoved { .. } => push_json_str(&mut out, "removed"),
    }
    out.append(",\"payload\":");
    match b {
        EventBody::LobbyInvitationReceive { sender, receiver }
        | EventBody::LobbyInvitationAccept { sender, receiver }
        | EventBody::LobbyInvitationDecline { sender, receiver }
        | EventBody::LobbyKickMember { sender, receiver } | EventBody::FriendRequestReceive {
            sender,
            receiver,
        } | EventBody::FriendRequestAccept { sender, receiver }
        | EventBody::FriendRequestDecline { sender, receiver } => {
            push_sr_payload(&mut out, sender.as_str(), receiver.as_str());
        },
        EventBody::LobbyLeave { username, leader, members } => {
            out.append("{\"username\":");
            push_json_str(&mut out, username.as_str());
            out.append(",\"leader\":");
            push_json_str(&mut out, leader.as_str());
            out.append(",\"members\":");
            push_members_json(&mut out, members);
            out.append("}");
        },
        EventBody::LobbyMakeLeader { leader } => {
            out.append("{\"leader\":");
            push_json_str(&mut out, leader.as_str());
            out.append("}");
        },
        EventBody::GameServerCreate { address, host } => {
            out.append("{\"game_server\":{\"address\":");
            push_json_str(&mut out, address.as_str());
            out.append(",\"host\":");
            push_json_str(&mut out, host.as_str());
            out.append("}}");
        },
        EventBody::FriendRemoved { username } => {
            out.append("{\"username\":");
            push_json_str(&mut out, username.as_str());
            out.append("}");
        },
    }
    out.append("}");
    proof {
        match b {
            EventBody::LobbyInvitationReceive { .. } => assert(out@ =~= body_json(b@)),
            EventBody::LobbyInvitationAccept { .. } => assert(out@ =~= body_json(b@)),
            EventBody::LobbyInvitationDecline { .. } => assert(out@ =~= body_json(b@)),
            EventBody::LobbyLeave { .. } => assert(out@ =~= body_json(b@)),
            EventBody::LobbyMakeLeader { .. } => assert(out@ =~= body_json(b@)),
            EventBody::LobbyKickMember { .. } => assert(out@ =~= body_json(b@)),
            EventBody::GameServerCreate { .. } => assert(out@ =~= body_json(b@)),
            EventBody::FriendRequestReceive { .. } => assert(out@ =~= body_json(b@)),
            EventBody::FriendRequestAccept { .. } => assert(out@ =~= body_json(b@)),
            EventBody::FriendRequestDecline { .. } => assert(out@ =~= body_json(b@)),
            EventBody::FriendRemoved { .. } => assert(out@ =~= body_json(b@)),
        }
    }
    out
}

impl Event {
    /// Renders the envelope exactly as the wire format prescribes.
    pub fn encode(&self) -> (r: String)
        ensures
            r@ == envelope_json(self@),
    {
        let mut out = String::new();
        out.append("{\"username\":");
        push_json_str(&mut out, self.target.as_str());
        out.append(",\"data\":");
        let data = encode_body(&self.body);
        out.append(data.as_str());
        out.append("}");
        proof {
            assert(out@ =~= envelope_json(self@));
        }
        out
    }

    /// Copies the envelope, preserving its mathematical value.
    pub fn duplicate(&self) -> (r: Self)
        ensures
            r@ == self@,
    {
        let body = match &self.body {
            EventBody::LobbyInvitationReceive { sender, receiver } => (
            EventBody::LobbyInvitationReceive {
                sender: sender.clone(),
                receiver: receiver.clone(),
            }),
            EventBody::LobbyInvitationAccept { sender, receiver } => (
            EventBody::LobbyInvitationAccept {
                sender: sender.clone(),
                receiver: receiver.clone(),
            }),
            EventBody::LobbyInvitationDecline { sender, receiver } => (
            EventBody::LobbyInvitationDecline {
                sender: sender.clone(),
                receiver: receiver.clone(),
            }),
            EventBody::LobbyLeave { username, leader, members } => (
            EventBody::LobbyLeave {
                username: username.clone(),
                leader: leader.clone(),
                members: clone_string_vec(members),
            }),
            EventBody::LobbyMakeLeader { leader } => (
            EventBody::LobbyMakeLeader { leader: leader.clone() }),
            EventBody::LobbyKickMember { sender, receiver } => (
            EventBody::LobbyKickMember { sender: sender.clone(), receiver: receiver.clone() }),
            EventBody::GameServerCreate { address, host } => (
            EventBody::GameServerCreate { address: address.clone(), host: host.clone() }),
            EventBody::FriendRequestReceive { sender, receiver } => (
            EventBody::FriendRequestReceive {
                sender: sender.clone(),
                receiver: receiver.clone(),
            }),
            EventBody::FriendRequestAccept { sender, receiver } => (
            EventBody::FriendRequestAccept {
                sender: sender.clone(),
                receiver: receiver.clone(),
            }),
            EventBody::FriendRequestDecline { sender, receiver } => (
            EventBody::FriendRequestDecline {
                sender: sender.clone(),
                receiver: receiver.clone(),
            }),
            EventBody::FriendRemoved { username } => (
            EventBody::FriendRemoved { username: username.clone() }),
        };
        Event { target: self.target.clone(), body }
    }
}


/// The position of the first quote character at or after `i`, or a negative
/// value if none follows.
pub open spec fn first_quote(s: Seq<char>, i: int) -> int
    decreases s.len() - i,
{
    if i < 0 || i >= s.len() {
        -1
    } else if s[i] == '"' {
        i
    } else {
        first_quote(s, i + 1)
    }
}

/// `first_quote` finds exactly the first quote of the scanned range.
proof fn lemma_first_quote(s: Seq<char>, from: int, q: int)
    requires
        0 <= from <= q < s.len(),
        s[q] == '"',
        forall|j: int| from <= j < q ==> s[j] != '"',
    ensures
        first_quote(s, from) == q,
    decreases q - from,
{
    if from < q {
        lemma_first_quote(s, from + 1, q);
    }
}

/// The fixed opening of every envelope, up to the quote that starts the
/// target username.
pub open spec fn env_prefix() -> Seq<char> {
    "{\"username\":\""@
}

/// The fixed middle of every envelope, from the quote that ends the target
/// username to the start of the data object.
pub open spec fn env_mid() -> Seq<char> {
    "\",\"data\":"@
}

/// The dispatcher's reading of one bus message: the target username and the
/// data object of a canonical envelope, or nothing for any other text.
pub open spec fn parse_envelope(s: Seq<char>) -> Option<(Seq<char>, Seq<char>)> {
    let p = env_prefix();
    let m = env_mid();
    if s.len() < p.len() || s.subrange(0, p.len() as int) != p {
        None
    } else {
        let q = first_quote(s, p.len() as int);
        if q < 0 {
            None
        } else if q + m.len() + 1 <= s.len() && s.subrange(q, q + m.len()) == m && s[s.len() - 1]
            == '}' {
            Some((s.subrange(p.len() as int, q), s.subrange(q + m.len(), s.len() - 1)))
        } else {
            None
        }
    }
}

/// Splits one bus message into target username and data object, exactly as
/// [`parse_envelope`] prescribes.
#[verifier::loop_isolation(false)]
pub fn decode_envelope(s: &str) -> (r: Option<(String, String)>)
    ensures
        match r {
            Some(p) => parse_envelope(s@) == Some((p.0@, p.1@)),
            None => parse_envelope(s@) is None,
        },
{
    let n = s.unicode_len();
    let prefix = "{\"username\":\"";
    let mid = "\",\"data\":";
    let plen = prefix.unicode_len();
    let mlen = mid.unicode_len();
    if n < plen {
        return None;
    }
    if !crate::text::str_eq(s.substring_char(0, plen), prefix) {
        return None;
    }
    let mut q = plen;
    loop
        invariant
            plen <= q <= n,
            forall|j: int| plen <= j < q ==> s@[j] != '"',
        decreases n - q,
    {
        if q >= n {
            proof {
                lemma_first_quote_none(s@, plen as int);
            }
            return None;
        }
        if s.get_char(q) == '"' {
            break ;
        }
        q = q + 1;
    }
    proof {
        lemma_first_quote(s@, plen as int, q as int);
    }
    if !(mlen < n - q) {
        return None;
    }
    if !crate::text::str_eq(s.substring_char(q, q + mlen), mid) {
        return None;
    }
    if !(s.get_char(n - 1) == '}') {
        return None;
    }
    let target = String::from_str(s.substring_char(plen, q));
    let data = String::from_str(s.substring_char(q + mlen, n - 1));
    Some((target, data))
}

/// When no quote follows position `from`, the scan reports none.
proof fn lemma_first_quote_none(s: Seq<char>, from: int)
    requires
        0 <= from,
        forall|j: int| from <= j < s.len() ==> s[j] != '"',
    ensures
        first_quote(s, from) < 0,
    decreases s.len() - from,
{
    if from < s.len() {
        lemma_first_quote_none(s, from + 1);
    }
}

/// Decoding a canonical envelope gives back exactly its target and its data
/// object: the encoder and the dispatcher's decoder agree.
pub proof fn law_envelope_round_trip(e: EventV)
    requires
        crate::text::json_safe(e.target),
    ensures
        parse_envelope(envelope_json(e)) == Some((e.target, body_json(e.body))),
{
    let s = envelope_json(e);
    let p = env_prefix();
    let m = env_mid();
    let t = e.target;
    let b = body_json(e.body);
    reveal_strlit("{\"username\":");
    reveal_strlit("{\"username\":\"");
    reveal_strlit("\"");
    reveal_strlit(",\"data\":");
    reveal_strlit("\",\"data\":");
    reveal_strlit("}");
    assert(s =~= p + t + m + b + "}"@) by {
        assert(json_str(t) == "\""@ + t + "\""@);
        assert(s == "{\"username\":"@ + ("\""@ + t + "\""@) + ",\"data\":"@ + b + "}"@);
        assert(forall|i: int| 0 <= i < p.len() - 1 ==> p[i] == "{\"username\":"@[i]);
        assert(p[p.len() - 1] == '"');
        assert(forall|i: int| 1 <= i < m.len() ==> m[i] == ",\"data\":"@[i - 1]);
        assert(m[0] == '"');
    }
    assert(s.subrange(0, p.len() as int) =~= p);
    let q: int = (p.len() + t.len()) as int;
    assert(s[q] == '"') by {
        assert(m[0] == '"');
        assert(s[q] == m[0]);
    }
    assert forall|j: int| p.len() <= j < q implies s[j] != '"' by {
        assert(s[j] == t[j - p.len()]);
        assert(crate::text::json_safe_char(t[j - p.len()]));
    }
    lemma_first_quote(s, p.len() as int, q);
    assert(s.subrange(q, q + m.len()) =~= m);
    assert(s[s.len() - 1] == '}') by {
        assert(s[s.len() - 1] == "}"@[0]);
    }
    assert(s.subrange(p.len() as int, q) =~= t);
    assert(s.subrange(q + m.len(), s.len() - 1) =~= b);
}

} // verus!
