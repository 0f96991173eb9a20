//! The table of active sessions, keyed by session id.
use vstd::prelude::*;

use crate::protocol::frame::{session_id_eq, SessionId};
use crate::server::sessions::session::Session;
use crate::table::{
    distinct_keys, lemma_table_at, lemma_table_dom, lemma_table_len, lemma_table_push, lemma_table_remove, table_map,
};

verus! {

/// The key under which a session is filed.
pub open spec fn session_key(s: Session) -> Seq<u8> {
    s.session_id@
}

/// A session filed as itself.
pub open spec fn session_value(s: Session) -> Session {
    s
}

/// The table of active sessions; at most one session per session id.
pub struct SessionManager {
    sessions: Vec<Session>,
}

/// The position of the session filed under `id`, if any.
fn find_session(table: &Vec<Session>, id: &SessionId) -> (r: Option<usize>)
    ensures
        match r {
            Some(i) => i < table@.len() && table@[i as int].session_id@ == id@,
            None => forall|i: int| 0 <= i < table@.len() ==> (#[trigger] table@[i]).session_id@ != id@,
        },
{
    let n = table.len();
    let mut i: usize = 0;
    while i < n
        invariant
            n == table@.len(),
            i <= n,
            forall|j: int| 0 <= j < i ==> (#[trigger] table@[j]).session_id@ != id@,
        decreases n - i,
    {
        if session_id_eq(&table[i].session_id, id) {
            return Some(i);
        }
        i = i + 1;
    }
    None
}

impl SessionManager {
    #[verifier::type_invariant]
    spec fn one_per_id(self) -> bool {
        distinct_keys(self.sessions@, |s: Session| session_key(s))
    }

    /// The active sessions by session id.
    pub closed spec fn sessions(&self) -> Map<Seq<u8>, Session> {
        table_map(self.sessions@, |s: Session| session_key(s), |s: Session| session_value(s))
    }

    /// An empty table.
    pub fn new() -> (r: Self)
        ensures
            r.sessions() == Map::<Seq<u8>, Session>::empty(),
    {
        SessionManager { sessions: Vec::new() }
    }

    /// Creates a session for `session_id` (replacing any session under that
    /// id) and returns it.
    pub fn create_session(&mut self, session_id: SessionId, peer_id: Option<[u8; 32]>) -> (r: Session)
        ensures
            r.session_id == session_id,
            r.peer_id == peer_id,
            final(self).sessions() == old(self).sessions().insert(session_id@, r),
    {
        proof {
            use_type_invariant(&*self);
        }
        let session = Session::new(session_id, peer_id);
        let mut table = Vec::new();
        std::mem::swap(&mut table, &mut self.sessions);
        let ghost key = |s: Session| session_key(s);
        let ghost val = |s: Session| session_value(s);
        let ghost s0 = table@;
        match find_session(&table, &session_id) {
            Some(i) => {
                proof {
                    lemma_table_remove(s0, key, val, i as int);
                }
                let _ = table.remove(i);
            },
            None => {
                proof {
                    lemma_table_dom(s0, key, val, session_id@);
                    assert(table_map(s0, key, val).remove(session_id@) =~= table_map(s0, key, val));
                }
            },
        }
        let ghost s1 = table@;
        proof {
            lemma_table_dom(s1, key, val, session_id@);
        }
        table.push(session);
        proof {
            lemma_table_push(s1, key, val, session);
            assert(table_map(table@, key, val) =~= table_map(s0, key, val).insert(session_id@, session));
        }
        self.sessions = table;
        session
    }

    /// Records that the session under `session_id` was seen now and returns
    /// it; `None`, with nothing changed, when there is no such session.
    pub fn touch_session(&mut self, session_id: &SessionId) -> (r: Option<Session>)
        ensures
            match r {
                Some(s) => old(self).sessions().dom().contains(session_id@) && final(self).sessions()
                    == old(self).sessions().insert(session_id@, s) && s.session_id == old(self).sessions()[session_id@].session_id
                    && s.peer_id == old(self).sessions()[session_id@].peer_id && s.authenticated_at
                    == old(self).sessions()[session_id@].authenticated_at,
                None => !old(self).sessions().dom().contains(session_id@) && final(self).sessions()
                    == old(self).sessions(),
            },
    {
        proof {
            use_type_invariant(&*self);
        }
        let ghost key = |s: Session| session_key(s);
        let ghost val = |s: Session| session_value(s);
        let ghost s0 = self.sessions@;
        proof {
            lemma_table_dom(s0, key, val, session_id@);
        }
        let i = match find_session(&self.sessions, session_id) {
            Some(i) => i,
            None => return None,
        };
        proof {
            lemma_table_at(s0, key, val, i as int);
        }
        let mut table = Vec::new();
        std::mem::swap(&mut table, &mut self.sessions);
        let mut session = table.remove(i);
        proof {
            lemma_table_remove(s0, key, val, i as int);
        }
        let ghost s1 = table@;
        proof {
            lemma_table_dom(s1, key, val, session_id@);
        }
        session.touch();
        table.push(session);
        proof {
            lemma_table_push(s1, key, val, session);
            assert(table_map(table@, key, val) =~= table_map(s0, key, val).insert(session_id@, session));
        }
        self.sessions = table;
        Some(session)
    }

    /// Removes the session under `session_id` and returns it.
    pub fn remove_session(&mut self, session_id: &SessionId) -> (r: Option<Session>)
        ensures
            final(self).sessions() == old(self).sessions().remove(session_id@),
            match r {
                Some(s) => old(self).sessions().dom().contains(session_id@) && old(self).sessions()[session_id@] == s,
                None => !old(self).sessions().dom().contains(session_id@),
            },
    {
        proof {
            use_type_invariant(&*self);
        }
        let ghost key = |s: Session| session_key(s);
        let ghost val = |s: Session| session_value(s);
        let ghost s0 = self.sessions@;
        proof {
            lemma_table_dom(s0, key, val, session_id@);
        }
        let i = match find_session(&self.sessions, session_id) {
            Some(i) => i,
            None => {
                assert(table_map(s0, key, val).remove(session_id@) =~= table_map(s0, key, val));
                return None;
            },
        };
        proof {
            lemma_table_at(s0, key, val, i as int);
            lemma_table_remove(s0, key, val, i as int);
        }
        let mut table = Vec::new();
        std::mem::swap(&mut table, &mut self.sessions);
        let session = table.remove(i);
        self.sessions = table;
        Some(session)
    }

    /// The number of active sessions.
    pub fn count(&self) -> (r: usize)
        ensures
            r == self.sessions().len(),
    {
        proof {
            use_type_invariant(self);
            lemma_table_len(self.sessions@, |s: Session| session_key(s), |s: Session| session_value(s));
        }
        self.sessions.len()
    }
}

} // verus!
