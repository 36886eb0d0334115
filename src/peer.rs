//! At most one peer session per connection, created on first need and
//! never shared. Sessions are known here by number; the engine objects
//! behind the numbers are kept by the transport.
use vstd::prelude::*;
use crate::tables::{session_table, sessions_get, sessions_insert, sessions_new, sessions_remove, SessionTable};

verus! {

/// The peer session of a connection, as handed out by [`PeerSessions::get_or_create`].
#[derive(Debug, Clone, Copy, PartialEq, Eq)]
pub struct SessionGrant {
    pub session: u64,
    /// The session was made by this call (the engine object must be built).
    pub created: bool,
}

pub struct PeerSessions {
    table: SessionTable,
    next_id: u64,
}

impl PeerSessions {
    /// Connection id to session id.
    pub closed spec fn sessions(&self) -> Map<u128, u64> {
        session_table(self.table)
    }

    /// The number that the next new session gets.
    pub closed spec fn next(&self) -> u64 {
        self.next_id
    }

    /// Every session number in use is below the next one, so a new session
    /// never reuses the number of a live one.
    pub open spec fn wf(&self) -> bool {
        forall|c: u128| #[trigger] self.sessions().contains_key(c) ==> self.sessions()[c] < self.next()
    }

    pub fn new() -> (r: Self)
        ensures
            r.wf(),
            r.sessions().dom().is_empty(),
    {
        PeerSessions { table: sessions_new(), next_id: 0 }
    }

    /// The session of connection `c`, if it has one.
    pub fn session_of(&self, c: u128) -> (r: Option<u64>)
        ensures
            r is Some <==> self.sessions().contains_key(c),
            r matches Some(s) ==> s == self.sessions()[c],
    {
        sessions_get(&self.table, c)
    }

    /// The session of connection `c`: its existing one, or a new one whose
    /// number no other connection holds. `None` only when session numbers
    /// are exhausted.
    pub fn get_or_create(&mut self, c: u128) -> (r: Option<SessionGrant>)
        requires
            old(self).wf(),
        ensures
            final(self).wf(),
            old(self).sessions().contains_key(c) ==> r == Some(
                SessionGrant { session: old(self).sessions()[c], created: false },
            ) && final(self).sessions() == old(self).sessions(),
            !old(self).sessions().contains_key(c) ==> (r is None <==> old(self).next() == u64::MAX),
            !old(self).sessions().contains_key(c) && r is Some ==> r->0.created,
            r is Some && r->0.created ==> {
                &&& !old(self).sessions().contains_key(c)
                &&& final(self).sessions() == old(self).sessions().insert(c, r->0.session)
                &&& forall|c2: u128| #[trigger]
                    old(self).sessions().contains_key(c2) ==> old(self).sessions()[c2] != r->0.session
            },
            r is None ==> final(self).sessions() == old(self).sessions(),
    {
        match sessions_get(&self.table, c) {
            Some(s) => Some(SessionGrant { session: s, created: false }),
            None => {
                if self.next_id == u64::MAX {
                    return None;
                }
                let s = self.next_id;
                sessions_insert(&mut self.table, c, s);
                self.next_id = s + 1;
                Some(SessionGrant { session: s, created: true })
            },
        }
    }

    /// Drops the session of connection `c`, handing back its number; a
    /// no-op for a connection without one.
    pub fn close(&mut self, c: u128) -> (r: Option<u64>)
        requires
            old(self).wf(),
        ensures
            final(self).wf(),
            final(self).sessions() == old(self).sessions().remove(c),
            r is Some <==> old(self).sessions().contains_key(c),
            r matches Some(s) ==> s == old(self).sessions()[c],
    {
        let r = sessions_get(&self.table, c);
        sessions_remove(&mut self.table, c);
        assert forall|c2: u128| #[trigger] self.sessions().contains_key(c2) implies self.sessions()[c2] < self.next() by {
            assert(old(self).sessions().contains_key(c2));
        }
        r
    }
}

} // verus!
