//! The session registry: a bidirectional mapping between live connection
//! identifiers and player identifiers.  A player may hold at most one live
//! connection at a time; a second concurrent login is rejected.

use vstd::prelude::*;

use crate::types::{PlayerId, SessionId};

verus! {

/// Process-local registry of live sessions.  Each entry pairs one connection
/// with one player; both columns are free of duplicates.
#[derive(Debug)]
pub struct Sessions {
    /// Exposed so specifications can speak about the registry's contents;
    /// mutate only through the methods, which keep both columns distinct.
    pub pairs: Vec<(SessionId, PlayerId)>,
}

impl Sessions {
    /// Both columns are duplicate-free: no connection is mapped twice and no
    /// player holds two live connections.
    pub open spec fn wf(self) -> bool {
        forall|i: int, j: int|
            0 <= i < j < self.pairs@.len() ==> self.pairs@[i].0@ != self.pairs@[j].0@
                && self.pairs@[i].1@ != self.pairs@[j].1@
    }

    /// Some live connection is registered under this connection identifier.
    pub open spec fn has_session(self, sid: Seq<char>) -> bool {
        exists|i: int| 0 <= i < self.pairs@.len() && self.pairs@[i].0@ == sid
    }

    /// This player currently holds a live connection.
    pub open spec fn has_player(self, pid: Seq<char>) -> bool {
        exists|i: int| 0 <= i < self.pairs@.len() && self.pairs@[i].1@ == pid
    }

    /// The player registered for a connection, if any.
    pub open spec fn spec_player_of(self, sid: Seq<char>) -> Option<Seq<char>> {
        if self.has_session(sid) {
            let i = choose|i: int| 0 <= i < self.pairs@.len() && self.pairs@[i].0@ == sid;
            Some(self.pairs@[i].1@)
        } else {
            None
        }
    }

    pub fn new() -> (r: Sessions)
        ensures
            r.wf(),
            r.pairs@.len() == 0,
    {
        Sessions { pairs: Vec::new() }
    }

    /// Registers a connection for a player.  Rejected — returning the
    /// offered connection identifier, with the registry unchanged — if the
    /// player already holds a live connection, or if the connection is
    /// already registered.
    pub fn connect(&mut self, session_id: SessionId, player_id: PlayerId) -> (r: Result<
        (),
        SessionId,
    >)
        requires
            old(self).wf(),
        ensures
            final(self).wf(),
            old(self).has_player(player_id@) || old(self).has_session(session_id@) ==> (r
                matches Err(s) && s@ == session_id@ && final(self).pairs@ == old(self).pairs@),
            !(old(self).has_player(player_id@) || old(self).has_session(session_id@)) ==> r is Ok
                && final(self).pairs@.len() == old(self).pairs@.len() + 1
                && final(self).pairs@.last().0@ == session_id@
                && final(self).pairs@.last().1@ == player_id@
                && final(self).pairs@.take(old(self).pairs@.len() as int) == old(self).pairs@,
    {
        let n = self.pairs.len();
        let mut i: usize = 0;
        while i < n
            invariant
                *self == *old(self),
                self.wf(),
                n == self.pairs@.len(),
                i <= n,
                forall|k: int|
                    0 <= k < i ==> self.pairs@[k].1@ != player_id@ && self.pairs@[k].0@
                        != session_id@,
            decreases n - i,
        {
            if self.pairs[i].1 == player_id || self.pairs[i].0 == session_id {
                return Err(session_id);
            }
            i += 1;
        }
        self.pairs.push((session_id, player_id));
        proof {
            assert(self.pairs@.take(old(self).pairs@.len() as int) =~= old(self).pairs@);
        }
        Ok(())
    }

    /// Unregisters a connection, removing both directions of the mapping.
    /// Entries for other connections are untouched.
    pub fn remove(&mut self, session_id: &SessionId)
        requires
            old(self).wf(),
        ensures
            final(self).wf(),
            !final(self).has_session(session_id@),
            !old(self).has_session(session_id@) ==> final(self).pairs@ == old(self).pairs@,
            old(self).has_session(session_id@) ==> {
                let i = choose|i: int|
                    0 <= i < old(self).pairs@.len() && old(self).pairs@[i].0@ == session_id@;
                final(self).pairs@ == old(self).pairs@.remove(i)
            },
    {
        let n = self.pairs.len();
        let mut i: usize = 0;
        while i < n
            invariant
                *self == *old(self),
                self.wf(),
                n == self.pairs@.len(),
                i <= n,
                forall|k: int| 0 <= k < i ==> self.pairs@[k].0@ != session_id@,
            decreases n - i,
        {
            if self.pairs[i].0 == *session_id {
                self.pairs.remove(i);
                proof {
                    let j = choose|j: int|
                        0 <= j < old(self).pairs@.len() && old(self).pairs@[j].0@ == session_id@;
                    assert(j == i);
                    assert(forall|k: int|
                        0 <= k < self.pairs@.len() ==> self.pairs@[k].0@ != session_id@);
                }
                return ;
            }
            i += 1;
        }
    }

    /// The player registered for a connection, if any.
    pub fn player_id(&self, session_id: &SessionId) -> (r: Option<&PlayerId>)
        requires
            self.wf(),
        ensures
            match r {
                Some(p) => self.spec_player_of(session_id@) == Some(p@),
                None => self.spec_player_of(session_id@) is None,
            },
    {
        let n = self.pairs.len();
        let mut i: usize = 0;
        while i < n
            invariant
                self.wf(),
                n == self.pairs@.len(),
                i <= n,
                forall|k: int| 0 <= k < i ==> self.pairs@[k].0@ != session_id@,
            decreases n - i,
        {
            if self.pairs[i].0 == *session_id {
                proof {
                    let j = choose|j: int|
                        0 <= j < self.pairs@.len() && self.pairs@[j].0@ == session_id@;
                    assert(j == i);
                }
                return Some(&self.pairs[i].1);
            }
            i += 1;
        }
        None
    }
}

} // verus!
