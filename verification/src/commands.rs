//! Routing of inbound client command envelopes `{resource, action, payload}`
//! received over a live connection: the decision of which reply each
//! malformed or well-formed friend-list query earns.

use vstd::prelude::*;

use crate::text::{str_eq, valid_username};

verus! {

/// The router's verdict on one inbound command.
pub enum WsReply {
    /// The (resource, action) pair is not one this process answers.
    NotHandled,
    /// The command is malformed; reply with this message.
    ErrorMessage(&'static str),
    /// A well-formed friend-list query for this username: run it.
    Friendlist(String),
}

/// Whether the router answers this (resource, action) pair at all.
pub open spec fn handles_command(resource: Seq<char>, action: Seq<char>) -> bool {
    resource == "friendlist"@ && action == "get"@
}

/// Routes one inbound command. `username_present` says whether the payload
/// carried a `username` field at all; `username` carries it when it was a
/// string.
pub fn route_ws_command(
    resource: &str,
    action: &str,
    payload_empty: bool,
    username_present: bool,
    username: Option<&String>,
) -> (r: WsReply)
    ensures
        !handles_command(resource@, action@) <==> (r is NotHandled),
        handles_command(resource@, action@) && payload_empty ==> (r matches WsReply::ErrorMessage(m)
            && m@ == "Missing payload !"@),
        handles_command(resource@, action@) && !payload_empty && !username_present ==> (
        r matches WsReply::ErrorMessage(m) && m@ == "Missing username !"@),
        handles_command(resource@, action@) && !payload_empty && username_present && username
            is None ==> (r matches WsReply::ErrorMessage(m) && m@ == "Username not a string !"@),
        handles_command(resource@, action@) && !payload_empty && username_present && username
            is Some && !valid_username(username->Some_0@) ==> (r matches WsReply::ErrorMessage(m)
            && m@ == "Invalid username format !"@),
        handles_command(resource@, action@) && !payload_empty && username_present && username
            is Some && valid_username(username->Some_0@) ==> (r matches WsReply::Friendlist(q)
            && q@ == username->Some_0@),
{
    if !str_eq(resource, "friendlist") || !str_eq(action, "get") {
        return WsReply::NotHandled;
    }
    if payload_empty {
        return WsReply::ErrorMessage("Missing payload !");
    }
    if !username_present {
        return WsReply::ErrorMessage("Missing username !");
    }
    let user = match username {
        Some(u) => u,
        None => {
            return WsReply::ErrorMessage("Username not a string !");
        },
    };
    if !crate::text::check_username(user.as_str()) {
        return WsReply::ErrorMessage("Invalid username format !");
    }
    WsReply::Friendlist(user.clone())
}

} // verus!
