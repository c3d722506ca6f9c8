//! The friendship layer's verified parts: the decision gates the endpoints
//! apply before and after their store queries, and the exact JSON rendering
//! of a friend list.

use vstd::prelude::*;

use crate::events::{Event, EventBody, EventBodyV, EventV, json_str};
use crate::model::OpError;
use crate::text::{check_username, valid_username};

verus! {

/// One row of a friend list: a friend's username and online flag.
pub struct FriendEntry {
    pub username: String,
    pub status: bool,
}

/// The mathematical value of a [`FriendEntry`].
pub struct FriendEntryV {
    pub username: Seq<char>,
    pub status: bool,
}

impl View for FriendEntry {
    type V = FriendEntryV;

    open spec fn view(&self) -> FriendEntryV {
        FriendEntryV { username: self.username@, status: self.status }
    }
}

/// One friend-list row as a JSON object.
pub open spec fn friend_entry_json(e: FriendEntryV) -> Seq<char> {
    "{\"username\":"@ + json_str(e.username) + ",\"status\":"@ + (if e.status {
        "true"@
    } else {
        "false"@
    }) + "}"@
}

/// The comma-separated rows of a friend list.
pub open spec fn friendlist_items(s: Seq<FriendEntryV>) -> Seq<char>
    decreases s.len(),
{
    if s.len() == 0 {
        Seq::empty()
    } else if s.len() == 1 {
        friend_entry_json(s[0])
    } else {
        friendlist_items(s.drop_last()) + ","@ + friend_entry_json(s.last())
    }
}

/// A friend list as a JSON array.
pub open spec fn friendlist_json(s: Seq<FriendEntryV>) -> Seq<char> {
    "["@ + friendlist_items(s) + "]"@
}

/// The views of a sequence of friend-list rows.
pub open spec fn entries_view(s: Seq<FriendEntry>) -> Seq<FriendEntryV> {
    s.map_values(|e: FriendEntry| e@)
}

/// Renders a friend list exactly as the endpoints reply with it.
#[verifier::loop_isolation(false)]
#[verifier::rlimit(50)]
pub fn encode_friendlist(entries: &Vec<FriendEntry>) -> (r: String)
    ensures
        r@ == friendlist_json(entries_view(entries@)),
{
    let ghost ev = entries_view(entries@);
    let mut out = String::new();
    out.append("[");
    let n = entries.len();
    for i in 0..n
        invariant
            out@ =~= "["@ + friendlist_items(ev.subrange(0, i as int)),
    {
        if i > 0 {
            out.append(",");
        }
        out.append("{\"username\":");
        out.append("\"");
        out.append(entries[i].username.as_str());
        out.append("\"");
        out.append(",\"status\":");
        if entries[i].status {
            out.append("true");
        } else {
            out.append("false");
        }
        out.append("}");
        proof {
            assert(ev.subrange(0, i + 1).drop_last() =~= ev.subrange(0, i as int));
            assert(ev.subrange(0, i + 1).last() == ev[i as int]);
            if i == 0 {
                assert(friendlist_items(ev.subrange(0, 1)) =~= friend_entry_json(ev[0]));
            }
            assert(out@ =~= "["@ + friendlist_items(ev.subrange(0, i + 1)));
        }
    }
    out.append("]");
    proof {
        assert(ev.subrange(0, ev.len() as int) =~= ev);
        assert(out@ =~= friendlist_json(ev));
    }
    out
}

/// Merges the two halves of a friend-list query; an empty result is the
/// not-found outcome the endpoints report.
pub fn friendlist_response(mut first: Vec<FriendEntry>, second: Vec<FriendEntry>) -> (r: Result<
    Vec<FriendEntry>,
    OpError,
>)
    ensures
        (first@.len() == 0 && second@.len() == 0) <==> (r matches Err(OpError::NotFound)),
        r is Ok ==> r->Ok_0@ == first@ + second@,
{
    let ghost f0 = first@;
    let mut second = second;
    let ghost s0 = second@;
    first.append(&mut second);
    proof {
        assert(first@ =~= f0 + s0);
    }
    if first.len() == 0 {
        return Err(OpError::NotFound);
    }
    Ok(first)
}

/// Decides a send-friend-request call: both names must be well-formed and
/// no identical request may be pending; the receiver is then owed the
/// `friend_request`/`receive` notice.
pub fn send_friend_request_gate(sender: &String, receiver: &String, already_requested: bool) -> (r:
    Result<Event, OpError>)
    ensures
        (!valid_username(sender@) || !valid_username(receiver@)) <==> (r matches Err(
            OpError::Validation,
        )),
        valid_username(sender@) && valid_username(receiver@) && already_requested <==> (
        r matches Err(OpError::Conflict)),
        valid_username(sender@) && valid_username(receiver@) && !already_requested ==> (
        r matches Ok(e) && e@ == (EventV {
            target: receiver@,
            body: EventBodyV::FriendRequestReceive { sender: sender@, receiver: receiver@ },
        })),
{
    if !check_username(sender.as_str()) || !check_username(receiver.as_str()) {
        return Err(OpError::Validation);
    }
    if already_requested {
        return Err(OpError::Conflict);
    }
    Ok(
        Event {
            target: receiver.clone(),
            body: EventBody::FriendRequestReceive {
                sender: sender.clone(),
                receiver: receiver.clone(),
            },
        },
    )
}

/// Decides an accept-friend-request call: validates both names and
/// produces the `friend_request`/`accept` notice owed to the sender.
pub fn accept_friend_request_event(sender: &String, receiver: &String) -> (r: Result<
    Event,
    OpError,
>)
    ensures
        (!valid_username(sender@) || !valid_username(receiver@)) <==> (r matches Err(
            OpError::Validation,
        )),
        valid_username(sender@) && valid_username(receiver@) ==> (r matches Ok(e) && e@ == (EventV {
            target: sender@,
            body: EventBodyV::FriendRequestAccept { sender: sender@, receiver: receiver@ },
        })),
{
    if !check_username(sender.as_str()) || !check_username(receiver.as_str()) {
        return Err(OpError::Validation);
    }
    Ok(
        Event {
            target: sender.clone(),
            body: EventBody::FriendRequestAccept {
                sender: sender.clone(),
                receiver: receiver.clone(),
            },
        },
    )
}

/// Decides a decline-friend-request call: validates both names and
/// produces the `friend_request`/`decline` notice owed to the sender.
pub fn decline_friend_request_event(sender: &String, receiver: &String) -> (r: Result<
    Event,
    OpError,
>)
    ensures
        (!valid_username(sender@) || !valid_username(receiver@)) <==> (r matches Err(
            OpError::Validation,
        )),
        valid_username(sender@) && valid_username(receiver@) ==> (r matches Ok(e) && e@ == (EventV {
            target: sender@,
            body: EventBodyV::FriendRequestDecline { sender: sender@, receiver: receiver@ },
        })),
{
    if !check_username(sender.as_str()) || !check_username(receiver.as_str()) {
        return Err(OpError::Validation);
    }
    Ok(
        Event {
            target: sender.clone(),
            body: EventBody::FriendRequestDecline {
                sender: sender.clone(),
                receiver: receiver.clone(),
            },
        },
    )
}

} // verus!
