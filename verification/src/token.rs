//! The access credential of the service and the cache that keeps it valid.

use vstd::prelude::*;
use crate::error::UpstreamError;

verus! {

/// An access credential as the upstream platform issues it.
#[derive(Debug)]
pub struct Token {
    pub access_token: String,
    /// The time to live from the moment of issuance, in seconds.
    pub expires_in: u64,
    pub token_type: String,
}

/// The mathematical content of a [`Token`].
pub ghost struct Credential {
    pub access_token: Seq<char>,
    pub expires_in: u64,
    pub token_type: Seq<char>,
}

impl DeepView for Token {
    type V = Credential;

    open spec fn deep_view(&self) -> Credential {
        Credential {
            access_token: self.access_token@,
            expires_in: self.expires_in,
            token_type: self.token_type@,
        }
    }
}

impl Clone for Token {
    fn clone(&self) -> (copy: Self)
        ensures
            copy.deep_view() == self.deep_view(),
    {
        Token {
            access_token: self.access_token.clone(),
            expires_in: self.expires_in,
            token_type: self.token_type.clone(),
        }
    }
}

/// What a credential cache holds: one credential and the second at which
/// it was issued.
pub ghost struct CredentialState {
    pub credential: Credential,
    pub issued_at: u64,
}

impl CredentialState {
    /// The second from which on the credential is no longer valid.
    pub open spec fn expiry(self) -> int {
        self.issued_at + self.credential.expires_in
    }

    /// The credential is no longer valid at `now`.
    pub open spec fn is_expired(self, now: u64) -> bool {
        now >= self.expiry()
    }

    /// The cache once `credential`, issued at `now`, has taken the place of
    /// what it held.
    pub open spec fn renewed(self, credential: Credential, now: u64) -> CredentialState {
        CredentialState { credential, issued_at: now }
    }

    /// The cache after `event`: an issued credential replaces the one held,
    /// together with its time of issuance; nothing else changes the cache.
    pub open spec fn after(self, event: CredentialEvent) -> CredentialState {
        match event {
            CredentialEvent::Issued { token, now } => self.renewed(token.deep_view(), now),
            _ => self,
        }
    }

    /// `action` is the answer to `event`. A request is answered with the
    /// credential held while that is valid, and with a call for issuance
    /// from its expiry on. An issued credential is handed on at once. A
    /// failed issuance fails the request: it is not tried again.
    pub open spec fn answers(self, event: CredentialEvent, action: CredentialAction) -> bool {
        match event {
            CredentialEvent::Requested { now } => if self.is_expired(now) {
                action is Issue
            } else {
                action matches CredentialAction::Use(value) && value@
                    == self.credential.access_token
            },
            CredentialEvent::Issued { token, now } => action matches CredentialAction::Use(value)
                && value@ == token.access_token@,
            CredentialEvent::IssueFailed(reason) => action == CredentialAction::Fail(reason),
        }
    }
}

/// What a credential cache is told. Times are seconds on one clock that
/// never runs backwards.
#[derive(Debug)]
pub enum CredentialEvent {
    /// A caller asks for a valid credential at `now`.
    Requested { now: u64 },
    /// The platform issued `token` at `now`.
    Issued { token: Token, now: u64 },
    /// The platform issued nothing.
    IssueFailed(UpstreamError),
}

/// What the holder of the cache does next.
#[derive(Debug)]
pub enum CredentialAction {
    /// Go on with this token value.
    Use(String),
    /// Have one credential issued, and report how that ended.
    Issue,
    /// Give up the operation that asked.
    Fail(UpstreamError),
}

/// A single access credential with its time of issuance.
///
/// Whoever holds the cache exclusively from a request to the answer that
/// ends it sees to it that one issuance at most is under way.
#[derive(Debug)]
pub struct CredentialCache {
    token: Token,
    issued_at: u64,
}

impl View for CredentialCache {
    type V = CredentialState;

    closed spec fn view(&self) -> CredentialState {
        CredentialState { credential: self.token.deep_view(), issued_at: self.issued_at }
    }
}

impl CredentialCache {
    /// A cache that holds `token`, issued at `now`.
    pub fn new(token: Token, now: u64) -> (cache: CredentialCache)
        ensures
            cache@ == (CredentialState { credential: token.deep_view(), issued_at: now }),
    {
        CredentialCache { token, issued_at: now }
    }

    /// Whether the credential held is no longer valid at `now`.
    pub fn is_expired(&self, now: u64) -> (expired: bool)
        ensures
            expired == self@.is_expired(now),
    {
        now >= self.issued_at && now - self.issued_at >= self.token.expires_in
    }

    /// The credential held.
    pub fn token(&self) -> (token: &Token)
        ensures
            token.deep_view() == self@.credential,
    {
        &self.token
    }

    /// The second at which the credential held was issued.
    pub fn issued_at(&self) -> (second: u64)
        ensures
            second == self@.issued_at,
    {
        self.issued_at
    }

    /// Takes `event` in and says what to do next.
    pub fn step(&mut self, event: CredentialEvent) -> (action: CredentialAction)
        ensures
            final(self)@ == old(self)@.after(event),
            old(self)@.answers(event, action),
    {
        match event {
            CredentialEvent::Requested { now } => {
                if self.is_expired(now) {
                    CredentialAction::Issue
                } else {
                    CredentialAction::Use(self.token.access_token.clone())
                }
            },
            CredentialEvent::Issued { token, now } => {
                let value = token.access_token.clone();
                self.token = token;
                self.issued_at = now;
                CredentialAction::Use(value)
            },
            CredentialEvent::IssueFailed(reason) => CredentialAction::Fail(reason),
        }
    }
}

/// The number of issuances when callers ask one after another at `times`,
/// each holding the cache until it is answered, and each issuance yields
/// `fresh` at the time of the request.
pub open spec fn issuances(state: CredentialState, times: Seq<u64>, fresh: Credential) -> nat
    decreases times.len(),
{
    if times.len() == 0 {
        0
    } else if state.is_expired(times.first()) {
        1 + issuances(state.renewed(fresh, times.first()), times.drop_first(), fresh)
    } else {
        issuances(state, times.drop_first(), fresh)
    }
}

/// While the credential is valid, no number of callers causes an issuance.
pub proof fn lemma_valid_credential_is_reused(
    state: CredentialState,
    times: Seq<u64>,
    fresh: Credential,
)
    requires
        forall|i: int| 0 <= i < times.len() ==> !state.is_expired(times[i]),
    ensures
        issuances(state, times, fresh) == 0,
    decreases times.len(),
{
    if times.len() > 0 {
        let rest = times.drop_first();
        assert forall|i: int| 0 <= i < rest.len() implies !state.is_expired(rest[i]) by {
            assert(rest[i] == times[i + 1]);
        }
        lemma_valid_credential_is_reused(state, rest, fresh);
    }
}

/// Callers who find the credential expired cause one issuance between
/// them, however many they are: the first has one issued, and the others,
/// asking within its lifetime, use it.
pub proof fn lemma_expired_credential_is_issued_once(
    state: CredentialState,
    times: Seq<u64>,
    fresh: Credential,
)
    requires
        times.len() > 0,
        state.is_expired(times[0]),
        forall|i: int|
            0 <= i < times.len() ==> times[0] <= #[trigger] times[i] && times[i] < times[0]
                + fresh.expires_in,
    ensures
        issuances(state, times, fresh) == 1,
{
    let renewed = state.renewed(fresh, times[0]);
    let rest = times.drop_first();
    assert forall|i: int| 0 <= i < rest.len() implies !renewed.is_expired(rest[i]) by {
        assert(rest[i] == times[i + 1]);
    }
    lemma_valid_credential_is_reused(renewed, rest, fresh);
}

} // verus!
