//! Per-account authentication lifecycle. Each account runs its own state
//! machine: load the device fingerprint, load the session token, check that the
//! token belongs to the account, log in, persist a refreshed token. The caller
//! performs the requested actions and feeds their outcomes back as events.

use vstd::prelude::*;
use crate::error::{ConfigError, LoginError};
use crate::token::SessionToken;

verus! {

/// Where an account stands in its authentication sequence.
#[derive(Clone, Debug, PartialEq, Eq)]
pub enum SessionState {
    Start,
    LoadDevice,
    LoadToken,
    Authenticate,
    Active,
    Failed(LoginError),
}

/// Outcome of the work the previous action asked for.
#[derive(Debug, PartialEq, Eq)]
pub enum SessionEvent {
    Begin,
    DeviceLoaded(Result<(), ConfigError>),
    TokenLoaded(Result<SessionToken, ConfigError>),
    LoginFinished(bool),
    TimedOut,
}

/// Work the caller performs next for the account.
#[derive(Clone, Debug, PartialEq, Eq)]
pub enum SessionAction {
    LoadDevice,
    LoadToken,
    /// Token login over the network with this token.
    Login(SessionToken),
    /// Post-login handshake, then writing a refreshed token; a failure there is
    /// only logged and leaves the account active.
    PersistToken,
    Nothing,
}

pub open spec fn is_terminal(s: SessionState) -> bool {
    s is Active || s is Failed
}

/// The transition table of an account with id `id`.
pub open spec fn next(id: i64, s: SessionState, e: SessionEvent) -> (SessionState, SessionAction) {
    match (s, e) {
        (SessionState::Start, SessionEvent::Begin) => (SessionState::LoadDevice, SessionAction::LoadDevice),
        (SessionState::LoadDevice, SessionEvent::DeviceLoaded(Ok(()))) => (SessionState::LoadToken, SessionAction::LoadToken),
        (SessionState::LoadDevice, SessionEvent::DeviceLoaded(Err(c))) => (
            SessionState::Failed(LoginError::GetConfigError(c)),
            SessionAction::Nothing,
        ),
        (SessionState::LoadToken, SessionEvent::TokenLoaded(Ok(t))) => if t.uin == id {
            (SessionState::Authenticate, SessionAction::Login(t))
        } else {
            (SessionState::Failed(LoginError::WrongCredential), SessionAction::Nothing)
        },
        (SessionState::LoadToken, SessionEvent::TokenLoaded(Err(c))) => (
            SessionState::Failed(LoginError::GetConfigError(c)),
            SessionAction::Nothing,
        ),
        (SessionState::Authenticate, SessionEvent::LoginFinished(ok)) => if ok {
            (SessionState::Active, SessionAction::PersistToken)
        } else {
            (SessionState::Failed(LoginError::TokenLoginFailed), SessionAction::Nothing)
        },
        (s, SessionEvent::TimedOut) => if is_terminal(s) {
            (s, SessionAction::Nothing)
        } else {
            (SessionState::Failed(LoginError::Timeout), SessionAction::Nothing)
        },
        (s, _) => (s, SessionAction::Nothing),
    }
}

/// The state an account reaches from `s` through the events `es`, in order.
pub open spec fn run(id: i64, s: SessionState, es: Seq<SessionEvent>) -> SessionState
    decreases es.len(),
{
    if es.len() == 0 {
        s
    } else {
        next(id, run(id, s, es.drop_last()), es.last()).0
    }
}

/// The events of an account whose device and token load and whose login succeeds.
pub open spec fn successful_events(t: SessionToken) -> Seq<SessionEvent> {
    seq![
        SessionEvent::Begin,
        SessionEvent::DeviceLoaded(Ok(())),
        SessionEvent::TokenLoaded(Ok(t)),
        SessionEvent::LoginFinished(true),
    ]
}

/// An account whose credentials are valid and whose login succeeds becomes
/// active, whatever happens to any other account.
pub proof fn lemma_valid_credentials_reach_active(id: i64, t: SessionToken)
    requires
        t.uin == id,
    ensures
        run(id, SessionState::Start, successful_events(t)) == SessionState::Active,
{
    let es = successful_events(t);
    let e3 = es.drop_last();
    let e2 = e3.drop_last();
    let e1 = e2.drop_last();
    assert(e1.drop_last() =~= Seq::<SessionEvent>::empty());
    assert(run(id, SessionState::Start, e1.drop_last()) == SessionState::Start);
    assert(e1.last() == SessionEvent::Begin);
    assert(e2.last() == SessionEvent::DeviceLoaded(Ok(())));
    assert(e3.last() == SessionEvent::TokenLoaded(Ok(t)));
    assert(es.last() == SessionEvent::LoginFinished(true));
    assert(run(id, SessionState::Start, e1) == SessionState::LoadDevice);
    assert(run(id, SessionState::Start, e2) == SessionState::LoadToken);
    assert(run(id, SessionState::Start, e3) == SessionState::Authenticate);
}

/// A token that belongs to another account fails the account with
/// `WrongCredential`, and no login is requested.
pub proof fn lemma_wrong_credential_guard(id: i64, t: SessionToken)
    requires
        t.uin != id,
    ensures
        next(id, SessionState::LoadToken, SessionEvent::TokenLoaded(Ok(t)))
            == (SessionState::Failed(LoginError::WrongCredential), SessionAction::Nothing),
        forall|s: SessionState, e: SessionEvent|
            #[trigger] next(id, s, e).1 matches SessionAction::Login(u) ==> u.uin == id,
{
}

/// One account's authentication sequence.
pub struct Session {
    pub id: i64,
    pub state: SessionState,
}

impl Session {
    pub fn new(id: i64) -> (r: Session)
        ensures
            r.id == id,
            r.state == SessionState::Start,
    {
        Session { id, state: SessionState::Start }
    }

    /// Applies the outcome of the previous action and returns the next one.
    /// A login is only ever requested with a token whose `uin` is this account's id.
    pub fn step(&mut self, e: SessionEvent) -> (r: SessionAction)
        ensures
            final(self).id == old(self).id,
            (final(self).state, r) == next(old(self).id, old(self).state, e),
            r matches SessionAction::Login(t) ==> t.uin == old(self).id,
    {
        let mut state = SessionState::Start;
        core::mem::swap(&mut state, &mut self.state);
        let (s, a) = match (state, e) {
            (SessionState::Start, SessionEvent::Begin) => (SessionState::LoadDevice, SessionAction::LoadDevice),
            (SessionState::LoadDevice, SessionEvent::DeviceLoaded(Ok(()))) => (SessionState::LoadToken, SessionAction::LoadToken),
            (SessionState::LoadDevice, SessionEvent::DeviceLoaded(Err(c))) => (
                SessionState::Failed(LoginError::GetConfigError(c)),
                SessionAction::Nothing,
            ),
            (SessionState::LoadToken, SessionEvent::TokenLoaded(Ok(t))) => if t.uin == self.id {
                (SessionState::Authenticate, SessionAction::Login(t))
            } else {
                (SessionState::Failed(LoginError::WrongCredential), SessionAction::Nothing)
            },
            (SessionState::LoadToken, SessionEvent::TokenLoaded(Err(c))) => (
                SessionState::Failed(LoginError::GetConfigError(c)),
                SessionAction::Nothing,
            ),
            (SessionState::Authenticate, SessionEvent::LoginFinished(ok)) => if ok {
                (SessionState::Active, SessionAction::PersistToken)
            } else {
                (SessionState::Failed(LoginError::TokenLoginFailed), SessionAction::Nothing)
            },
            (s, SessionEvent::TimedOut) => match s {
                SessionState::Active => (s, SessionAction::Nothing),
                SessionState::Failed(_) => (s, SessionAction::Nothing),
                _ => (SessionState::Failed(LoginError::Timeout), SessionAction::Nothing),
            },
            (s, _) => (s, SessionAction::Nothing),
        };
        self.state = s;
        a
    }

    pub fn is_active(&self) -> (r: bool)
        ensures
            r == (self.state is Active),
    {
        match self.state {
            SessionState::Active => true,
            _ => false,
        }
    }

    pub fn is_terminal(&self) -> (r: bool)
        ensures
            r == is_terminal(self.state),
    {
        match self.state {
            SessionState::Active => true,
            SessionState::Failed(_) => true,
            _ => false,
        }
    }
}

/// Ids of the active accounts, in order.
pub open spec fn active_ids(s: Seq<Session>) -> Seq<i64>
    decreases s.len(),
{
    if s.len() == 0 {
        Seq::empty()
    } else if s.last().state is Active {
        active_ids(s.drop_last()).push(s.last().id)
    } else {
        active_ids(s.drop_last())
    }
}

/// The authentication sequences of all controlled accounts. Each account
/// advances on its own events only, so one account's failure never holds back
/// another; the registry of active accounts is handed out once every account
/// has finished.
pub struct Accounts {
    pub sessions: Vec<Session>,
}

impl Accounts {
    pub fn new(ids: &Vec<i64>) -> (r: Accounts)
        ensures
            r.sessions@.len() == ids@.len(),
            forall|i: int| #![trigger r.sessions@[i]] 0 <= i < ids@.len() ==> r.sessions@[i].id == ids@[i]
                && r.sessions@[i].state == SessionState::Start,
    {
        let mut sessions: Vec<Session> = Vec::new();
        let mut i: usize = 0;
        while i < ids.len()
            invariant
                i <= ids.len(),
                sessions@.len() == i,
                forall|j: int| #![trigger sessions@[j]] 0 <= j < i ==> sessions@[j].id == ids@[j]
                    && sessions@[j].state == SessionState::Start,
            decreases ids.len() - i,
        {
            sessions.push(Session::new(ids[i]));
            i = i + 1;
        }
        Accounts { sessions }
    }

    /// Advances the account at `index` and returns its next action; every
    /// other account is left as it was.
    pub fn step(&mut self, index: usize, e: SessionEvent) -> (r: SessionAction)
        requires
            index < old(self).sessions@.len(),
        ensures
            final(self).sessions@.len() == old(self).sessions@.len(),
            final(self).sessions@[index as int].id == old(self).sessions@[index as int].id,
            (final(self).sessions@[index as int].state, r) == next(
                old(self).sessions@[index as int].id,
                old(self).sessions@[index as int].state,
                e,
            ),
            forall|j: int|
                0 <= j < old(self).sessions@.len() && j != index ==> #[trigger] final(self).sessions@[j]
                    == old(self).sessions@[j],
    {
        let mut s = self.sessions.remove(index);
        let a = s.step(e);
        self.sessions.insert(index, s);
        a
    }

    /// Whether every account has become active or failed.
    pub fn all_finished(&self) -> (r: bool)
        ensures
            r == forall|j: int| 0 <= j < self.sessions@.len() ==> is_terminal(#[trigger] self.sessions@[j].state),
    {
        let mut i: usize = 0;
        while i < self.sessions.len()
            invariant
                i <= self.sessions@.len(),
                forall|j: int| 0 <= j < i ==> is_terminal(#[trigger] self.sessions@[j].state),
            decreases self.sessions@.len() - i,
        {
            if !self.sessions[i].is_terminal() {
                return false;
            }
            i = i + 1;
        }
        true
    }

    /// The ids of the active accounts, once every account has finished;
    /// `None` while any account is still authenticating.
    pub fn active_accounts(&self) -> (r: Option<Vec<i64>>)
        ensures
            r is Some <==> forall|j: int| 0 <= j < self.sessions@.len() ==> is_terminal(#[trigger] self.sessions@[j].state),
            r matches Some(v) ==> v@ == active_ids(self.sessions@),
    {
        if !self.all_finished() {
            return None;
        }
        let mut ids: Vec<i64> = Vec::new();
        let mut i: usize = 0;
        while i < self.sessions.len()
            invariant
                i <= self.sessions@.len(),
                ids@ == active_ids(self.sessions@.subrange(0, i as int)),
            decreases self.sessions@.len() - i,
        {
            assert(self.sessions@.subrange(0, i + 1).drop_last() == self.sessions@.subrange(0, i as int));
            if self.sessions[i].is_active() {
                ids.push(self.sessions[i].id);
            }
            i = i + 1;
        }
        assert(self.sessions@.subrange(0, self.sessions@.len() as int) == self.sessions@);
        Some(ids)
    }
}

} // verus!
