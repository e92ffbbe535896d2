//! The session registry: creating sessions with unique join codes, looking
//! them up, and deregistering closed ones. The actor plumbing around the
//! entries lives outside the library.
use vstd::prelude::*;
use vstd::string::StringExecFns;
use crate::id::{SessionId, UserId};
use crate::rng::fresh_id;
use crate::session::SessionCode;

verus! {

#[derive(Clone, Copy, PartialEq, Eq, Structural, Debug)]
pub enum SessionManagerError {
    UserSessionInstanceAlreadyExists,
    NoActiveSessions,
}

/// The registry's view of the running sessions: (session id, host id)
/// pairs, and the join-code table.
pub struct SessionManager {
    pub sessions: Vec<(SessionId, UserId)>,
    pub session_codes: Vec<(SessionCode, SessionId)>,
}

/// Whether some running session already has this host.
pub open spec fn host_active(sessions: Seq<(SessionId, UserId)>, host_id: UserId) -> bool {
    exists|i: int| 0 <= i < sessions.len() && (#[trigger] sessions[i]).1 == host_id
}

/// Whether a session with this id is registered.
pub open spec fn session_present(sessions: Seq<(SessionId, UserId)>, id: SessionId) -> bool {
    exists|i: int| 0 <= i < sessions.len() && (#[trigger] sessions[i]).0 == id
}

/// The first code-table entry carrying this code, or -1.
pub open spec fn code_idx(codes: Seq<(SessionCode, SessionId)>, code: Seq<char>) -> int
    decreases codes.len(),
{
    if codes.len() == 0 {
        -1
    } else if codes[0].0.code@ == code {
        0
    } else {
        let rest = code_idx(codes.drop_first(), code);
        if rest == -1 {
            -1
        } else {
            rest + 1
        }
    }
}

pub broadcast proof fn code_idx_ensures(codes: Seq<(SessionCode, SessionId)>, code: Seq<char>)
    ensures
        -1 <= #[trigger] code_idx(codes, code) < codes.len(),
        code_idx(codes, code) >= 0 ==> codes[code_idx(codes, code)].0.code@ == code,
        code_idx(codes, code) == -1 ==> forall|k: int|
            0 <= k < codes.len() ==> (#[trigger] codes[k]).0.code@ != code,
    decreases codes.len(),
{
    if codes.len() > 0 && codes[0].0.code@ != code {
        code_idx_ensures(codes.drop_first(), code);
        if code_idx(codes, code) == -1 {
            assert(forall|k: int|
                1 <= k < codes.len() ==> #[trigger] codes[k] == codes.drop_first()[k - 1]);
        }
    }
}

proof fn code_idx_skip(codes: Seq<(SessionCode, SessionId)>, code: Seq<char>, k: int)
    requires
        0 <= k < codes.len(),
        forall|t: int| 0 <= t < k ==> (#[trigger] codes[t]).0.code@ != code,
    ensures
        codes[k].0.code@ == code ==> code_idx(codes, code) == k,
        codes[k].0.code@ != code && code_idx(codes, code) >= 0 ==> code_idx(codes, code) > k,
    decreases k,
{
    if k > 0 {
        assert(forall|t: int|
            0 <= t < k - 1 ==> (#[trigger] codes.drop_first()[t]).0 == codes[t + 1].0);
        code_idx_skip(codes.drop_first(), code, k - 1);
    }
}

/// The entry predicates deregistration filters by.
pub open spec fn keeps_session(id: SessionId) -> spec_fn((SessionId, UserId)) -> bool {
    |e: (SessionId, UserId)| e.0 != id
}

pub open spec fn keeps_code(id: SessionId) -> spec_fn((SessionCode, SessionId)) -> bool {
    |e: (SessionCode, SessionId)| e.1 != id
}

impl SessionManager {
    pub fn new() -> (r: Self)
        ensures
            r.sessions@ == Seq::<(SessionId, UserId)>::empty(),
            r.session_codes@ == Seq::<(SessionCode, SessionId)>::empty(),
    {
        SessionManager { sessions: Vec::new(), session_codes: Vec::new() }
    }

    /// Whether some running session already has this host.
    pub fn host_active(&self, host_id: UserId) -> (r: bool)
        ensures
            r == host_active(self.sessions@, host_id),
    {
        let n = self.sessions.len();
        let mut i: usize = 0;
        while i < n
            invariant
                n == self.sessions@.len(),
                0 <= i <= n,
                forall|t: int| 0 <= t < i ==> (#[trigger] self.sessions@[t]).1 != host_id,
            decreases n - i,
        {
            if self.sessions[i].1 == host_id {
                return true;
            }
            i = i + 1;
        }
        false
    }

    /// Whether a join code is already in use.
    pub fn code_taken(&self, code: &SessionCode) -> (r: bool)
        ensures
            r == (code_idx(self.session_codes@, code.code@) >= 0),
    {
        proof {
            broadcast use code_idx_ensures;

        }
        let n = self.session_codes.len();
        let mut i: usize = 0;
        while i < n
            invariant
                n == self.session_codes@.len(),
                0 <= i <= n,
                forall|t: int| 0 <= t < i ==> (#[trigger] self.session_codes@[t]).0.code@
                    != code.code@,
                code_idx(self.session_codes@, code.code@) >= 0 ==> code_idx(
                    self.session_codes@,
                    code.code@,
                ) >= i,
            decreases n - i,
        {
            proof {
                broadcast use code_idx_ensures;

                code_idx_skip(self.session_codes@, code.code@, i as int);
            }
            if self.session_codes[i].0.code == code.code {
                return true;
            }
            i = i + 1;
        }
        false
    }

    /// A join code no registered session uses: a few random draws, then a
    /// code built longer than every taken one, which cannot collide.
    pub fn fresh_code(&self) -> (r: SessionCode)
        ensures
            code_idx(self.session_codes@, r.code@) == -1,
    {
        proof {
            broadcast use code_idx_ensures;

        }
        let mut tries: usize = 0;
        while tries < 64
            invariant
                tries <= 64,
            decreases 64 - tries,
        {
            let candidate = SessionCode::gen();
            if !self.code_taken(&candidate) {
                proof {
                    broadcast use code_idx_ensures;

                }
                return candidate;
            }
            tries = tries + 1;
        }
        let mut code = String::new();
        let n = self.session_codes.len();
        let mut i: usize = 0;
        while i < n
            invariant
                n == self.session_codes@.len(),
                0 <= i <= n,
                forall|t: int|
                    0 <= t < i ==> code@.len() >= (#[trigger] self.session_codes@[t]).0.code@.len(),
            decreases n - i,
        {
            code.append(self.session_codes[i].0.code.as_str());
            i = i + 1;
        }
        code.append("a");
        proof {
            reveal_strlit("a");
            assert(forall|t: int|
                0 <= t < n ==> code@.len() > (#[trigger] self.session_codes@[t]).0.code@.len());
            assert(forall|t: int|
                0 <= t < n ==> (#[trigger] self.session_codes@[t]).0.code@ != code@);
        }
        SessionCode { code }
    }

    /// Registers a new session for this host: rejected exactly when the
    /// host already runs one; otherwise a fresh id and a free join code are
    /// minted and recorded.
    pub fn init_session(&mut self, host_id: UserId) -> (r: Result<
        (SessionId, SessionCode),
        SessionManagerError,
    >)
        ensures
            r is Err <==> host_active(old(self).sessions@, host_id),
            r is Err ==> *final(self) == *old(self) && r == Err::<
                (SessionId, SessionCode),
                SessionManagerError,
            >(SessionManagerError::UserSessionInstanceAlreadyExists),
            r matches Ok((sid, code)) ==> {
                &&& final(self).sessions@ == old(self).sessions@.push((sid, host_id))
                &&& final(self).session_codes@ == old(self).session_codes@.push((code, sid))
                &&& code_idx(old(self).session_codes@, code.code@) == -1
            },
    {
        if self.host_active(host_id) {
            return Err(SessionManagerError::UserSessionInstanceAlreadyExists);
        }
        let id = fresh_id();
        let code = self.fresh_code();
        self.sessions.push((id, host_id));
        self.session_codes.push((code.clone(), id));
        Ok((id, code))
    }

    /// Resolves a join code to its session.
    pub fn unwrap_code(&self, code: &SessionCode) -> (r: Option<SessionId>)
        ensures
            r is Some <==> code_idx(self.session_codes@, code.code@) >= 0,
            r matches Some(sid) ==> sid == self.session_codes@[code_idx(
                self.session_codes@,
                code.code@,
            )].1,
    {
        proof {
            broadcast use code_idx_ensures;

        }
        let n = self.session_codes.len();
        let mut i: usize = 0;
        while i < n
            invariant
                n == self.session_codes@.len(),
                0 <= i <= n,
                forall|t: int| 0 <= t < i ==> (#[trigger] self.session_codes@[t]).0.code@
                    != code.code@,
                code_idx(self.session_codes@, code.code@) >= 0 ==> code_idx(
                    self.session_codes@,
                    code.code@,
                ) >= i,
            decreases n - i,
        {
            proof {
                broadcast use code_idx_ensures;

                code_idx_skip(self.session_codes@, code.code@, i as int);
            }
            if self.session_codes[i].0.code == code.code {
                return Some(self.session_codes[i].1);
            }
            i = i + 1;
        }
        None
    }

    /// Whether a join request names a registered session.
    pub fn has_session(&self, session_id: SessionId) -> (r: bool)
        ensures
            r == session_present(self.sessions@, session_id),
    {
        let n = self.sessions.len();
        let mut i: usize = 0;
        while i < n
            invariant
                n == self.sessions@.len(),
                0 <= i <= n,
                forall|t: int| 0 <= t < i ==> (#[trigger] self.sessions@[t]).0 != session_id,
            decreases n - i,
        {
            if self.sessions[i].0 == session_id {
                return true;
            }
            i = i + 1;
        }
        false
    }

    /// The ids of every registered session.
    pub fn get_games(&self) -> (r: Vec<SessionId>)
        ensures
            r@.len() == self.sessions@.len(),
            forall|i: int| 0 <= i < r@.len() ==> #[trigger] r@[i] == self.sessions@[i].0,
    {
        let mut out: Vec<SessionId> = Vec::new();
        let n = self.sessions.len();
        let mut i: usize = 0;
        while i < n
            invariant
                n == self.sessions@.len(),
                0 <= i <= n,
                out@.len() == i,
                forall|j: int| 0 <= j < i ==> #[trigger] out@[j] == self.sessions@[j].0,
            decreases n - i,
        {
            out.push(self.sessions[i].0);
            i = i + 1;
        }
        out
    }

    /// Deregisters a closed session: its entry and its join codes go.
    pub fn close_session(&mut self, id: SessionId)
        ensures
            final(self).sessions@ == old(self).sessions@.filter(keeps_session(id)),
            final(self).session_codes@ == old(self).session_codes@.filter(keeps_code(id)),
    {
        let mut kept: Vec<(SessionId, UserId)> = Vec::new();
        let n = self.sessions.len();
        let mut i: usize = 0;
        proof {
            assert(self.sessions@.take(0int).filter(keeps_session(id)) =~= Seq::<
                (SessionId, UserId),
            >::empty());
        }
        while i < n
            invariant
                n == self.sessions@.len(),
                0 <= i <= n,
                kept@ == self.sessions@.take(i as int).filter(keeps_session(id)),
            decreases n - i,
        {
            proof {
                assert(self.sessions@.take(i + 1int).drop_last() =~= self.sessions@.take(i as int));
                assert(self.sessions@.take(i + 1int).last() == self.sessions@[i as int]);
                reveal(Seq::filter);
            }
            if self.sessions[i].0 != id {
                kept.push((self.sessions[i].0, self.sessions[i].1));
            }
            i = i + 1;
        }
        proof {
            assert(self.sessions@.take(n as int) =~= self.sessions@);
        }
        self.sessions = kept;
        let mut kept_codes: Vec<(SessionCode, SessionId)> = Vec::new();
        let m = self.session_codes.len();
        let mut k: usize = 0;
        proof {
            assert(self.session_codes@.take(0int).filter(keeps_code(id)) =~= Seq::<
                (SessionCode, SessionId),
            >::empty());
        }
        while k < m
            invariant
                m == self.session_codes@.len(),
                0 <= k <= m,
                kept_codes@ == self.session_codes@.take(k as int).filter(keeps_code(id)),
            decreases m - k,
        {
            proof {
                assert(self.session_codes@.take(k + 1int).drop_last() =~= self.session_codes@.take(
                    k as int,
                ));
                assert(self.session_codes@.take(k + 1int).last() == self.session_codes@[k as int]);
                reveal(Seq::filter);
            }
            if self.session_codes[k].1 != id {
                let entry = (self.session_codes[k].0.clone(), self.session_codes[k].1);
                proof {
                    assert(entry == self.session_codes@[k as int]);
                }
                kept_codes.push(entry);
            }
            k = k + 1;
        }
        proof {
            assert(self.session_codes@.take(m as int) =~= self.session_codes@);
        }
        self.session_codes = kept_codes;
    }
}

} // verus!