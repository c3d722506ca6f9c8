//! The per-process connection registry: which username owns which live
//! outbound channel. Channels themselves live outside the library; here each
//! is stood for by the numeric token the process assigned it, so that a
//! superseded or removed connection's token is handed back to be closed.

use vstd::prelude::*;

use crate::assoc::AssocMap;

verus! {

/// The map from username to live-connection token.
pub struct Registry {
    entries: AssocMap<String, u64>,
}

impl View for Registry {
    type V = Map<Seq<char>, u64>;

    closed spec fn view(&self) -> Map<Seq<char>, u64> {
        self.entries@
    }
}

impl Registry {
    /// The structural invariant of the underlying table.
    pub closed spec fn wf(&self) -> bool {
        self.entries.wf()
    }

    /// An empty registry.
    pub fn new() -> (r: Self)
        ensures
            r.wf(),
            r@ == Map::<Seq<char>, u64>::empty(),
    {
        Registry { entries: AssocMap::new() }
    }

    /// Registers a connection for `user`. A reconnect replaces the entry;
    /// the superseded token is returned so the caller can close the stale
    /// connection explicitly.
    pub fn register(&mut self, user: String, token: u64) -> (r: Option<u64>)
        requires
            old(self).wf(),
        ensures
            final(self).wf(),
            final(self)@ == old(self)@.insert(user@, token),
            r == if old(self)@.contains_key(user@) {
                Some(old(self)@[user@])
            } else {
                None::<u64>
            },
    {
        let prev = match self.entries.get(&user) {
            Some(t) => Some(*t),
            None => None,
        };
        self.entries.insert(user, token);
        prev
    }

    /// Removes `user`'s entry (socket close or logout) and returns the
    /// token of the connection to be closed, if one was registered.
    pub fn remove(&mut self, user: &String) -> (r: Option<u64>)
        requires
            old(self).wf(),
        ensures
            final(self).wf(),
            final(self)@ == old(self)@.remove(user@),
            r == if old(self)@.contains_key(user@) {
                Some(old(self)@[user@])
            } else {
                None::<u64>
            },
    {
        let prev = match self.entries.get(user) {
            Some(t) => Some(*t),
            None => None,
        };
        self.entries.remove(user);
        prev
    }

    /// The dispatcher's decision for one envelope: the token of the local
    /// connection owned by `target`, or nothing — then the event is dropped.
    pub fn route(&self, target: &String) -> (r: Option<u64>)
        requires
            self.wf(),
        ensures
            match r {
                Some(t) => self@.contains_key(target@) && self@[target@] == t,
                None => !self@.contains_key(target@),
            },
    {
        match self.entries.get(target) {
            Some(t) => Some(*t),
            None => None,
        }
    }
}

} // verus!
