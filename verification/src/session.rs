//! Data model of the authentication core: device descriptions, PKCE
//! challenges, token bundles, and the session record itself.
//!
//! Timestamps are unix milliseconds held in `i64`, handed in by the
//! caller as plain values.
use vstd::prelude::*;

verus! {

/// Caller-supplied description of the device a session is created for.
/// Immutable once the session exists; the device id is one half of the
/// passphrase that encrypts the session at rest.
#[derive(Debug, Clone)]
pub struct DeviceInfo {
    pub device_id: String,
    pub device_name: String,
    pub platform: String,
    pub user_agent: Option<String>,
}

/// Mathematical image of a `DeviceInfo`.
#[verifier::ext_equal]
pub struct DeviceInfoView {
    pub device_id: Seq<char>,
    pub device_name: Seq<char>,
    pub platform: Seq<char>,
    pub user_agent: Option<Seq<char>>,
}

impl View for DeviceInfo {
    type V = DeviceInfoView;

    open spec fn view(&self) -> DeviceInfoView {
        DeviceInfoView {
            device_id: self.device_id@,
            device_name: self.device_name@,
            platform: self.platform@,
            user_agent: match self.user_agent {
                Option::Some(u) => Option::Some(u@),
                Option::None => Option::None,
            },
        }
    }
}

/// Token bundle returned by the external identity provider after the code
/// exchange; opaque to this core beyond expiry bookkeeping.
#[derive(Debug, Clone)]
pub struct AuthToken {
    pub access_token: String,
    pub refresh_token: String,
    pub expires_at: i64,
    pub token_type: String,
    pub scope: Option<String>,
}

/// Mathematical image of an `AuthToken`.
#[verifier::ext_equal]
pub struct AuthTokenView {
    pub access_token: Seq<char>,
    pub refresh_token: Seq<char>,
    pub expires_at: i64,
    pub token_type: Seq<char>,
    pub scope: Option<Seq<char>>,
}

impl View for AuthToken {
    type V = AuthTokenView;

    open spec fn view(&self) -> AuthTokenView {
        AuthTokenView {
            access_token: self.access_token@,
            refresh_token: self.refresh_token@,
            expires_at: self.expires_at,
            token_type: self.token_type@,
            scope: match self.scope {
                Option::Some(s) => Option::Some(s@),
                Option::None => Option::None,
            },
        }
    }
}

/// A PKCE verifier/challenge pair.  The verifier never leaves the process;
/// only the challenge is sent to the identity provider.
#[derive(Debug, Clone)]
pub struct PKCEChallenge {
    pub verifier: String,
    pub challenge: String,
    pub method: String,
    pub expires_at: i64,
}

/// Mathematical image of a `PKCEChallenge`.
#[verifier::ext_equal]
pub struct PKCEChallengeView {
    pub verifier: Seq<char>,
    pub challenge: Seq<char>,
    pub method: Seq<char>,
    pub expires_at: i64,
}

impl View for PKCEChallenge {
    type V = PKCEChallengeView;

    open spec fn view(&self) -> PKCEChallengeView {
        PKCEChallengeView {
            verifier: self.verifier@,
            challenge: self.challenge@,
            method: self.method@,
            expires_at: self.expires_at,
        }
    }
}

/// One login attempt.  Created with a PKCE challenge attached and no
/// tokens; tokens arrive after the external code exchange, at which point
/// the challenge is consumed.
#[derive(Debug, Clone)]
pub struct AuthSession {
    pub id: String,
    pub user_id: Option<String>,
    pub email: Option<String>,
    pub wallet_address: Option<String>,
    pub tokens: Option<AuthToken>,
    pub pkce: Option<PKCEChallenge>,
    pub state: String,
    pub created_at: i64,
    pub expires_at: i64,
    pub device_info: DeviceInfo,
}

/// Mathematical image of an `AuthSession`.
#[verifier::ext_equal]
pub struct AuthSessionView {
    pub id: Seq<char>,
    pub user_id: Option<Seq<char>>,
    pub email: Option<Seq<char>>,
    pub wallet_address: Option<Seq<char>>,
    pub tokens: Option<AuthTokenView>,
    pub pkce: Option<PKCEChallengeView>,
    pub state: Seq<char>,
    pub created_at: i64,
    pub expires_at: i64,
    pub device_info: DeviceInfoView,
}

impl View for AuthSession {
    type V = AuthSessionView;

    open spec fn view(&self) -> AuthSessionView {
        AuthSessionView {
            id: self.id@,
            user_id: match self.user_id {
                Option::Some(s) => Option::Some(s@),
                Option::None => Option::None,
            },
            email: match self.email {
                Option::Some(s) => Option::Some(s@),
                Option::None => Option::None,
            },
            wallet_address: match self.wallet_address {
                Option::Some(s) => Option::Some(s@),
                Option::None => Option::None,
            },
            tokens: match self.tokens {
                Option::Some(t) => Option::Some(t@),
                Option::None => Option::None,
            },
            pkce: match self.pkce {
                Option::Some(p) => Option::Some(p@),
                Option::None => Option::None,
            },
            state: self.state@,
            created_at: self.created_at,
            expires_at: self.expires_at,
            device_info: self.device_info@,
        }
    }
}

/// Structural invariant of a session record: it expires strictly after it
/// was created, and its anti-CSRF state is long enough to be unguessable.
pub open spec fn session_wf(s: AuthSessionView) -> bool {
    &&& s.expires_at > s.created_at
    &&& s.state.len() >= 32
}

/// A session is live at `now_ms` when its expiry lies strictly in the
/// future.
pub open spec fn session_live(s: AuthSessionView, now_ms: i64) -> bool {
    now_ms < s.expires_at
}

/// An expired session never passes the liveness check: once the clock
/// has reached its expiry it is rejected, whatever else it holds.
pub proof fn lemma_expired_session_rejected(s: AuthSessionView, now_ms: i64)
    requires
        s.expires_at <= now_ms,
    ensures
        !session_live(s, now_ms),
{
}

impl AuthSession {
    /// Lazy expiry check: every caller that retrieves a session must hold
    /// it against the clock before treating it as valid.
    pub fn is_still_valid(&self, now_ms: i64) -> (r: bool)
        ensures
            r == session_live(self@, now_ms),
    {
        now_ms < self.expires_at
    }
}

} // verus!
