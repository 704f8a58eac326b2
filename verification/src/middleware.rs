//! Per-request authentication resolution and escalation.
//!
//! The weak resolver inspects the `Authorization` header: a valid
//! auth-domain bearer token attaches a weak identity; anything else —
//! no header, no bearer prefix, a bad or expired token — leaves the
//! request anonymous and is never a hard error here. The strong
//! escalator re-verifies the account password and upgrades the tier for
//! this request only; on any failure it leaves the prior status in
//! place. Route guards turn a missing or insufficient status into the
//! uniform unauthorized error.

use vstd::prelude::*;
use vstd::string::StrSliceExecFns;

use crate::config::AuthConfig;
use crate::crypto::{digest_matches, verify_password};
use crate::error::ErrorDto;
use crate::jwt::{decode_token, spec_decode_token, TokenType};
use crate::store::{AuthStore, StoreView};

verus! {

/// Request-scoped authentication status: the resolved subject and the
/// tier it holds for this request.
#[derive(Debug, Clone, Copy, PartialEq, Eq, Structural)]
pub struct AuthStatus {
    pub user_id: i64,
    /// Whether the password was re-verified within this request.
    pub strong: bool,
}

/// Carried by routes that require a bearer-token identity.
#[derive(Debug, Clone, Copy)]
pub struct AuthGuard {
    pub user_id: i64,
}

/// Carried by routes that additionally require a fresh password
/// re-verification.
#[derive(Debug, Clone, Copy)]
pub struct StrongAuthGuard {
    pub user_id: i64,
}

/// The token inside an `Authorization` header, if the header has the
/// bearer shape.
pub open spec fn spec_bearer_token(header: Seq<char>) -> Option<Seq<char>> {
    if header.len() >= 7 && header.subrange(0, 7) == "Bearer "@ {
        Some(header.subrange(7, header.len() as int))
    } else {
        None
    }
}

/// What the weak resolver attaches, given the `Authorization` header:
/// a weak status for the subject of a valid auth-domain token, and
/// nothing in every other case.
pub open spec fn spec_resolve(cfg: AuthConfig, header: Option<Seq<char>>, now: i64) -> Option<
    AuthStatus,
> {
    match header {
        Some(h) => match spec_bearer_token(h) {
            Some(token) => match spec_decode_token(cfg, token, TokenType::Auth, now) {
                Some(c) => Some(AuthStatus { user_id: c.sub, strong: false }),
                None => None,
            },
            None => None,
        },
        None => None,
    }
}

/// Strip the bearer prefix off an `Authorization` header.
fn bearer_token<'a>(header: &'a str) -> (r: Option<&'a str>)
    ensures
        match r {
            Some(t) => spec_bearer_token(header@) == Some(t@),
            None => spec_bearer_token(header@) is None,
        },
{
    let prefix = "Bearer ";
    proof {
        reveal_strlit("Bearer ");
    }
    let len = header.unicode_len();
    if len < 7 {
        return None;
    }
    let mut i: usize = 0;
    while i < 7
        invariant
            i <= 7,
            len == header@.len(),
            7 <= len,
            prefix@ =~= "Bearer "@,
            forall|j: int| 0 <= j < i ==> header@[j] == prefix@[j],
        decreases 7 - i,
    {
        proof {
            reveal_strlit("Bearer ");
        }
        if header.get_char(i) != prefix.get_char(i) {
            proof {
                assert(header@.subrange(0, 7)[i as int] == header@[i as int]);
            }
            return None;
        }
        i = i + 1;
    }
    proof {
        assert(header@.subrange(0, 7) =~= "Bearer "@);
    }
    Some(header.substring_char(7, len))
}

/// Resolve the request's authentication status from its
/// `Authorization` header; never rejects, only attaches or withholds an
/// identity.
pub fn resolve_auth_status(cfg: &AuthConfig, authorization: Option<&str>, now: i64) -> (r: Option<
    AuthStatus,
>)
    ensures
        r == spec_resolve(
            *cfg,
            match authorization {
                Some(h) => Some(h@),
                None => None::<Seq<char>>,
            },
            now,
        ),
{
    let header = match authorization {
        Some(h) => h,
        None => {
            return None;
        },
    };
    let token = match bearer_token(header) {
        Some(t) => t,
        None => {
            return None;
        },
    };
    match decode_token(cfg, token, &TokenType::Auth, now) {
        Some(c) => Some(AuthStatus { user_id: c.sub, strong: false }),
        None => None,
    }
}

/// What the strong escalator leaves attached: with a status and a
/// submitted password whose digest verifies for that subject, the
/// status is replaced by a strong one; in every other case — no status,
/// no password, unknown subject, wrong password — the prior status
/// stays untouched. Escalation never creates an identity.
pub open spec fn spec_escalate(s: StoreView, status: Option<AuthStatus>, password: Option<
    Seq<char>,
>) -> Option<AuthStatus> {
    match (status, password) {
        (Some(st), Some(pw)) => if s.has_identity(st.user_id as int) && digest_matches(
            s.identities[s.identity_index(st.user_id as int)].password_hash,
            pw,
        ) {
            Some(AuthStatus { user_id: st.user_id, strong: true })
        } else {
            status
        },
        _ => status,
    }
}

/// Upgrade the request's tier to strong if the submitted password
/// verifies against the stored digest of the already-attached subject.
pub fn escalate(store: &AuthStore, status: Option<AuthStatus>, password: Option<&str>) -> (r:
    Option<AuthStatus>)
    requires
        store@.wf(),
    ensures
        r == spec_escalate(
            store@,
            status,
            match password {
                Some(p) => Some(p@),
                None => None::<Seq<char>>,
            },
        ),
{
    let st = match status {
        Some(st) => st,
        None => {
            return status;
        },
    };
    let pw = match password {
        Some(p) => p,
        None => {
            return status;
        },
    };
    let idx = match store.find_identity_by_id(st.user_id) {
        Some(i) => i,
        None => {
            return status;
        },
    };
    proof {
        store@.lemma_identity_index(st.user_id as int, idx as int);
    }
    if verify_password(pw, store.identity_at(idx).password_hash.as_str()) {
        Some(AuthStatus { user_id: st.user_id, strong: true })
    } else {
        status
    }
}

/// Whether a status carries the strong tier.
pub open spec fn spec_is_strong(status: Option<AuthStatus>) -> bool {
    match status {
        Some(st) => st.strong,
        None => false,
    }
}

/// Admit a request that carries any identity; reject anonymous ones.
pub fn auth_guard(status: &Option<AuthStatus>) -> (r: Result<AuthGuard, ErrorDto>)
    ensures
        match status {
            Some(st) => r matches Ok(g) && g.user_id == st.user_id,
            None => r matches Err(e) && e == ErrorDto::InvalidCredentials,
        },
{
    match status {
        Some(st) => Ok(AuthGuard { user_id: st.user_id }),
        None => Err(ErrorDto::InvalidCredentials),
    }
}

/// Admit a request only at the strong tier; anything less is rejected
/// uniformly.
pub fn strong_auth_guard(status: &Option<AuthStatus>) -> (r: Result<StrongAuthGuard, ErrorDto>)
    ensures
        match status {
            Some(st) => if st.strong {
                r matches Ok(g) && g.user_id == st.user_id
            } else {
                r matches Err(e) && e == ErrorDto::InvalidCredentials
            },
            None => r matches Err(e) && e == ErrorDto::InvalidCredentials,
        },
        spec_is_strong(*status) <==> r is Ok,
{
    match status {
        Some(st) => if st.strong {
            Ok(StrongAuthGuard { user_id: st.user_id })
        } else {
            Err(ErrorDto::InvalidCredentials)
        },
        None => Err(ErrorDto::InvalidCredentials),
    }
}

} // verus!
