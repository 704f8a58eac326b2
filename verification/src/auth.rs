//! The credential flows: registration with a one-time code, login,
//! token-pair issuance and refresh rotation.
//!
//! Every flow takes the store exclusively and the current time as plain
//! values; the contracts describe exactly which store the flow leaves
//! behind and when each error is returned.

use vstd::prelude::*;

use crate::config::AuthConfig;
use crate::crypto::{digest_matches, gen_totp, hash_password, verify_password};
use crate::error::ServiceError;
use crate::jwt::{
    decode_token, generate_token_pair, jwt_claims_of, jwt_token_of, spec_decode_token, Claims,
    TokenPair, TokenType,
};
use crate::store::{AuthStore, Identity, IdentityView, PendingView, StoreView};

verus! {

/// Login credentials as submitted by the client.
#[derive(Debug, Clone)]
pub struct LoginRequest {
    pub email: String,
    pub password: String,
}

/// A registration confirmation as submitted by the client.
#[derive(Debug, Clone)]
pub struct RegistrationData {
    /// Identifier of the pending registration being confirmed.
    pub req_id: i64,
    /// The one-time code the client received.
    pub totp: String,
    /// Desired account name.
    pub username: String,
    /// Desired account password, in the clear.
    pub password: String,
}

/// Whether a pending registration is still inside its confirmation
/// window at the given time.
pub open spec fn spec_within_window(cfg: AuthConfig, p: PendingView, now: int) -> bool {
    now - p.sent_on <= cfg.registration_window
}

/// Whether a pending registration accepts a confirmation attempt: still
/// in its window, attempt budget left, and the submitted code equal to
/// the stored one.
pub open spec fn spec_confirm_accepts(cfg: AuthConfig, p: PendingView, code: Seq<char>, now: int) -> bool {
    &&& spec_within_window(cfg, p, now)
    &&& p.trials < cfg.max_trials
    &&& p.code == code
}

/// Whether the store accepts these login credentials: an identity with
/// that email exists and its stored digest verifies against the
/// submitted password.
pub open spec fn spec_login_accepts(s: StoreView, email: Seq<char>, password: Seq<char>) -> bool {
    &&& s.has_email(email)
    &&& digest_matches(s.identities[s.email_index(email)].password_hash, password)
}

/// Whether the store accepts a presented refresh token, given what the
/// codec decoded from it: the decode yielded a subject, that subject
/// exists, and the presented token is, literally, the one stored for it.
pub open spec fn spec_refresh_accepts(s: StoreView, token: Seq<char>, decoded: Option<Claims>) -> bool {
    match decoded {
        Some(c) => s.has_identity(c.sub as int) && s.identities[s.identity_index(c.sub as int)].refresh_token
            == Some(token),
        None => false,
    }
}

/// Begin a registration: refused with a conflict when an identity with
/// the email already exists; otherwise a pending registration with a
/// fresh one-time code and the current timestamp is appended and its
/// identifier returned.
pub fn register(store: &mut AuthStore, cfg: &AuthConfig, email: String, now: i64) -> (r: Result<
    i64,
    ServiceError,
>)
    requires
        old(store)@.wf(),
        cfg.wf(),
        0 <= now,
    ensures
        final(store)@.wf(),
        match r {
            Ok(req_id) => !old(store)@.has_email(email@) && old(store)@.next_req_id < i64::MAX
                && req_id as int == old(store)@.next_req_id && (exists|code: Seq<char>|
                code.len() == 6 && final(store)@ == #[trigger] old(store)@.with_pending_added(
                    email@,
                    code,
                    now as int,
                )),
            Err(e) => final(store)@ == old(store)@ && match e {
                ServiceError::Conflict(f) => f@ == "email"@ && old(store)@.has_email(email@),
                ServiceError::InternalServer => !old(store)@.has_email(email@),
                _ => false,
            },
        },
{
    if let Some(_) = store.find_identity_by_email(&email) {
        return Err(ServiceError::Conflict("email".to_owned()));
    }
    let code = match gen_totp(cfg.totp_secret.as_slice()) {
        Some(c) => c,
        None => {
            return Err(ServiceError::InternalServer);
        },
    };
    store.insert_pending(email, code, now)
}

/// Confirm a registration. Unknown request identifiers are not found;
/// an attempt past the window fails without consuming budget; an
/// attempt with no budget left or a wrong code consumes budget and
/// fails; expiry, exhaustion and a wrong code are all reported with the
/// same unauthorized error so the client learns nothing about which it
/// was. An accepted attempt creates the identity with the hashed
/// password and discards every pending registration for the email,
/// atomically.
pub fn register_confirm(store: &mut AuthStore, cfg: &AuthConfig, data: RegistrationData, now: i64) -> (r:
    Result<Identity, ServiceError>)
    requires
        old(store)@.wf(),
        cfg.wf(),
        0 <= now,
    ensures
        final(store)@.wf(),
        match r {
            Ok(identity) => {
                let p = old(store)@.pending_row(data.req_id as int);
                &&& old(store)@.has_pending(data.req_id as int)
                &&& spec_confirm_accepts(*cfg, p, data.totp@, now as int)
                &&& !old(store)@.has_email(p.email)
                &&& old(store)@.next_user_id < i64::MAX
                &&& digest_matches(identity@.password_hash, data.password@)
                &&& identity@ == (IdentityView {
                    id: old(store)@.next_user_id,
                    email: p.email,
                    username: data.username@,
                    password_hash: identity@.password_hash,
                    refresh_token: None,
                    registered_on: now as int,
                })
                &&& final(store)@ == old(store)@.with_identity_added(identity@).with_pending_dropped(
                    p.email,
                )
            },
            Err(e) => match e {
                ServiceError::NotFound => !old(store)@.has_pending(data.req_id as int)
                    && final(store)@ == old(store)@,
                ServiceError::Unauthorized => old(store)@.has_pending(data.req_id as int) && {
                    let p = old(store)@.pending_row(data.req_id as int);
                    let i = old(store)@.pending_index(data.req_id as int);
                    if !spec_within_window(*cfg, p, now as int) {
                        final(store)@ == old(store)@
                    } else {
                        (p.trials >= cfg.max_trials || p.code != data.totp@) && final(store)@
                            == old(store)@.with_trials_bumped_at(i)
                    }
                },
                ServiceError::InternalServer => old(store)@.has_pending(data.req_id as int)
                    && spec_confirm_accepts(
                    *cfg,
                    old(store)@.pending_row(data.req_id as int),
                    data.totp@,
                    now as int,
                ) && final(store)@ == old(store)@,
                _ => false,
            },
        },
{
    let idx = match store.find_pending(data.req_id) {
        Some(i) => i,
        None => {
            return Err(ServiceError::NotFound);
        },
    };
    proof {
        old(store)@.lemma_pending_index(data.req_id as int, idx as int);
    }
    let sent_on = store.pending_at(idx).sent_on;
    if now - sent_on > cfg.registration_window {
        return Err(ServiceError::Unauthorized);
    }
    let trials = store.pending_at(idx).trials;
    let code_matches = store.pending_at(idx).code == data.totp;
    if trials >= cfg.max_trials || !code_matches {
        store.bump_trials_at(idx);
        return Err(ServiceError::Unauthorized);
    }
    let digest = match hash_password(data.password.as_str()) {
        Some(d) => d,
        None => {
            return Err(ServiceError::InternalServer);
        },
    };
    let email = store.pending_at(idx).email.clone();
    let id = match store.insert_identity(email.clone(), data.username.clone(), digest.clone(), now) {
        Ok(id) => id,
        Err(_) => {
            return Err(ServiceError::InternalServer);
        },
    };
    store.remove_pending_with_email(&email);
    Ok(Identity {
        id,
        email,
        username: data.username,
        password_hash: digest,
        refresh_token: None,
        registered_on: now,
    })
}

/// Issue an {auth, refresh} pair for a subject and persist the refresh
/// token as the subject's single valid one, overwriting any prior
/// value. The pair is owed whenever the subject exists: both tokens are
/// generated and the refresh token stored before the pair is returned;
/// for a missing subject the operation fails whole and nothing changes.
pub fn issue_pair(store: &mut AuthStore, cfg: &AuthConfig, user_id: i64, now: i64) -> (r: Result<
    TokenPair,
    ServiceError,
>)
    requires
        old(store)@.wf(),
        cfg.wf(),
        0 <= now,
        now + cfg.auth_token_lifetime <= i64::MAX,
        now + cfg.refresh_token_lifetime <= i64::MAX,
    ensures
        final(store)@.wf(),
        r is Ok <==> old(store)@.has_identity(user_id as int),
        match r {
            Ok(pair) => {
                let auth_exp = (now + cfg.auth_token_lifetime) as i64;
                let refresh_exp = (now + cfg.refresh_token_lifetime) as i64;
                &&& pair.auth_token@ == jwt_token_of(user_id, now, auth_exp, cfg.auth_secret@)
                &&& pair.refresh_token@ == jwt_token_of(user_id, now, refresh_exp, cfg.refresh_secret@)
                &&& jwt_claims_of(pair.auth_token@, cfg.auth_secret@) == Some(
                    (user_id, now, auth_exp),
                )
                &&& jwt_claims_of(pair.refresh_token@, cfg.refresh_secret@) == Some(
                    (user_id, now, refresh_exp),
                )
                &&& final(store)@ == old(store)@.with_refresh_token_at(
                    old(store)@.identity_index(user_id as int),
                    pair.refresh_token@,
                )
            },
            Err(e) => e == ServiceError::InternalServer && final(store)@ == old(store)@,
        },
{
    let idx = match store.find_identity_by_id(user_id) {
        Some(i) => i,
        None => {
            return Err(ServiceError::InternalServer);
        },
    };
    proof {
        old(store)@.lemma_identity_index(user_id as int, idx as int);
    }
    let pair = generate_token_pair(cfg, user_id, now);
    store.set_refresh_token_at(idx, pair.refresh_token.clone());
    Ok(pair)
}

/// Log in with email and password: the pair is owed exactly when an
/// identity with the email exists and the password verifies against its
/// stored digest; then a fresh pair is issued and its refresh token
/// stored, rotating out any prior one. A missing identity and a wrong
/// password are refused uniformly.
pub fn login(store: &mut AuthStore, cfg: &AuthConfig, request: LoginRequest, now: i64) -> (r: Result<
    TokenPair,
    ServiceError,
>)
    requires
        old(store)@.wf(),
        cfg.wf(),
        0 <= now,
        now + cfg.auth_token_lifetime <= i64::MAX,
        now + cfg.refresh_token_lifetime <= i64::MAX,
    ensures
        final(store)@.wf(),
        r is Ok <==> spec_login_accepts(old(store)@, request.email@, request.password@),
        match r {
            Ok(pair) => {
                let s = old(store)@;
                let i = s.email_index(request.email@);
                let uid = s.identities[i].id as i64;
                let auth_exp = (now + cfg.auth_token_lifetime) as i64;
                let refresh_exp = (now + cfg.refresh_token_lifetime) as i64;
                &&& pair.auth_token@ == jwt_token_of(uid, now, auth_exp, cfg.auth_secret@)
                &&& pair.refresh_token@ == jwt_token_of(uid, now, refresh_exp, cfg.refresh_secret@)
                &&& jwt_claims_of(pair.auth_token@, cfg.auth_secret@) == Some(
                    (uid, now, auth_exp),
                )
                &&& jwt_claims_of(pair.refresh_token@, cfg.refresh_secret@) == Some(
                    (uid, now, refresh_exp),
                )
                &&& final(store)@ == s.with_refresh_token_at(i, pair.refresh_token@)
            },
            Err(e) => e == ServiceError::Unauthorized && final(store)@ == old(store)@,
        },
{
    let idx = match store.find_identity_by_email(&request.email) {
        Some(i) => i,
        None => {
            return Err(ServiceError::Unauthorized);
        },
    };
    proof {
        old(store)@.lemma_email_index(request.email@, idx as int);
    }
    let ok = verify_password(request.password.as_str(), store.identity_at(idx).password_hash.as_str());
    if !ok {
        return Err(ServiceError::Unauthorized);
    }
    let user_id = store.identity_at(idx).id;
    proof {
        old(store)@.lemma_identity_index(user_id as int, idx as int);
    }
    issue_pair(store, cfg, user_id, now)
}

/// Rotate a refresh token: decode it under the refresh domain, load the
/// subject, and compare the presented token literally against the
/// stored one; the rotated pair is owed exactly when all three succeed,
/// and any failure is refused uniformly. Rotation stores the new
/// refresh token — this is what makes a stale (already rotated) token
/// fail forever after.
pub fn refresh(store: &mut AuthStore, cfg: &AuthConfig, refresh_token: String, now: i64) -> (r: Result<
    TokenPair,
    ServiceError,
>)
    requires
        old(store)@.wf(),
        cfg.wf(),
        0 <= now,
        now + cfg.auth_token_lifetime <= i64::MAX,
        now + cfg.refresh_token_lifetime <= i64::MAX,
    ensures
        final(store)@.wf(),
        r is Ok <==> spec_refresh_accepts(
            old(store)@,
            refresh_token@,
            spec_decode_token(*cfg, refresh_token@, TokenType::Refresh, now),
        ),
        match r {
            Ok(pair) => match spec_decode_token(*cfg, refresh_token@, TokenType::Refresh, now) {
                Some(c) => {
                    let s = old(store)@;
                    let auth_exp = (now + cfg.auth_token_lifetime) as i64;
                    let refresh_exp = (now + cfg.refresh_token_lifetime) as i64;
                    &&& pair.auth_token@ == jwt_token_of(c.sub, now, auth_exp, cfg.auth_secret@)
                    &&& pair.refresh_token@ == jwt_token_of(
                        c.sub,
                        now,
                        refresh_exp,
                        cfg.refresh_secret@,
                    )
                    &&& jwt_claims_of(pair.auth_token@, cfg.auth_secret@) == Some(
                        (c.sub, now, auth_exp),
                    )
                    &&& jwt_claims_of(pair.refresh_token@, cfg.refresh_secret@) == Some(
                        (c.sub, now, refresh_exp),
                    )
                    &&& final(store)@ == s.with_refresh_token_at(
                        s.identity_index(c.sub as int),
                        pair.refresh_token@,
                    )
                },
                None => false,
            },
            Err(e) => e == ServiceError::Unauthorized && final(store)@ == old(store)@,
        },
{
    let claims = match decode_token(cfg, refresh_token.as_str(), &TokenType::Refresh, now) {
        Some(c) => c,
        None => {
            return Err(ServiceError::Unauthorized);
        },
    };
    let idx = match store.find_identity_by_id(claims.sub) {
        Some(i) => i,
        None => {
            return Err(ServiceError::Unauthorized);
        },
    };
    proof {
        old(store)@.lemma_identity_index(claims.sub as int, idx as int);
    }
    let stored_matches = match &store.identity_at(idx).refresh_token {
        Some(t) => *t == refresh_token,
        None => false,
    };
    if !stored_matches {
        return Err(ServiceError::Unauthorized);
    }
    issue_pair(store, cfg, claims.sub, now)
}

/// Refresh rotation makes a stored refresh token single-use until the
/// next rotation: once a second pair has been issued for the subject,
/// the first refresh token — as long as it differs from the second, and
/// whatever the codec makes of it, provided it does not attribute it to
/// another subject — is refused, while the second is accepted.
pub proof fn lemma_refresh_rotation(
    s: StoreView,
    uid: i64,
    t1: Seq<char>,
    t2: Seq<char>,
    d1: Option<Claims>,
    d2: Option<Claims>,
)
    requires
        s.wf(),
        s.has_identity(uid as int),
        t1 != t2,
        match d1 {
            Some(c) => c.sub == uid,
            None => true,
        },
        match d2 {
            Some(c) => c.sub == uid,
            None => false,
        },
    ensures
        ({
            let i = s.identity_index(uid as int);
            let s2 = s.with_refresh_token_at(i, t1).with_refresh_token_at(i, t2);
            !spec_refresh_accepts(s2, t1, d1) && spec_refresh_accepts(s2, t2, d2)
        }),
{
    let i = s.identity_index(uid as int);
    let s2 = s.with_refresh_token_at(i, t1).with_refresh_token_at(i, t2);
    assert(0 <= i < s.identities.len());
    assert(forall|k: int|
        0 <= k < s2.identities.len() ==> (#[trigger] s2.identities[k]).id == s.identities[k].id);
    assert(s2.identities[i].refresh_token == Some(t2));
    assert(s2.has_identity(uid as int));
    s2.lemma_identity_index(uid as int, i);
}

/// A confirmed registration leaves an identity carrying the candidate
/// email in the store, so a later initiation for the same email meets
/// the conflict condition of [`register`].
pub proof fn lemma_confirmed_email_conflicts(s: StoreView, identity: IdentityView)
    ensures
        s.with_identity_added(identity).with_pending_dropped(identity.email).has_email(
            identity.email,
        ),
{
    let s2 = s.with_identity_added(identity).with_pending_dropped(identity.email);
    assert(s2.identities[s.identities.len() as int].email == identity.email);
}

/// A confirmed registration can log in: the store a successful
/// confirmation leaves behind accepts the confirmed email together with
/// the very password whose digest was stored.
pub proof fn lemma_confirmed_identity_can_login(
    s: StoreView,
    identity: IdentityView,
    password: Seq<char>,
)
    requires
        s.wf(),
        !s.has_email(identity.email),
        digest_matches(identity.password_hash, password),
    ensures
        spec_login_accepts(
            s.with_identity_added(identity).with_pending_dropped(identity.email),
            identity.email,
            password,
        ),
{
    let s2 = s.with_identity_added(identity).with_pending_dropped(identity.email);
    let n = s.identities.len() as int;
    assert(s2.identities[n].email == identity.email);
    assert(s2.has_email(identity.email));
    let j = s2.email_index(identity.email);
    if j != n {
        assert(0 <= j < s.identities.len() && s.identities[j].email == identity.email);
        assert(s.has_email(identity.email));
    }
    assert(s2.identities[s2.email_index(identity.email)].password_hash == identity.password_hash);
}

/// Three confirmation attempts with wrong codes exhaust the attempt
/// budget: each wrong attempt is refused and consumes budget, and a
/// fourth attempt is refused even with the correct code and still
/// inside the window.
pub proof fn lemma_trials_exhausted(
    cfg: AuthConfig,
    s: StoreView,
    req_id: i64,
    w1: Seq<char>,
    w2: Seq<char>,
    w3: Seq<char>,
    now: int,
)
    requires
        cfg.wf(),
        cfg.max_trials == 3,
        s.wf(),
        s.has_pending(req_id as int),
        s.pending_row(req_id as int).trials == 0,
        w1 != s.pending_row(req_id as int).code,
        w2 != s.pending_row(req_id as int).code,
        w3 != s.pending_row(req_id as int).code,
        spec_within_window(cfg, s.pending_row(req_id as int), now),
    ensures
        ({
            let p = s.pending_row(req_id as int);
            let i = s.pending_index(req_id as int);
            let s1 = s.with_trials_bumped_at(i);
            let s2 = s1.with_trials_bumped_at(i);
            let s3 = s2.with_trials_bumped_at(i);
            &&& !spec_confirm_accepts(cfg, p, w1, now)
            &&& !spec_confirm_accepts(cfg, s1.pending[i], w2, now)
            &&& !spec_confirm_accepts(cfg, s2.pending[i], w3, now)
            &&& s3.pending[i].trials == 3
            &&& !spec_confirm_accepts(cfg, s3.pending[i], p.code, now)
        }),
{
    let p = s.pending_row(req_id as int);
    let i = s.pending_index(req_id as int);
    assert(0 <= i < s.pending.len());
    let s1 = s.with_trials_bumped_at(i);
    let s2 = s1.with_trials_bumped_at(i);
    let s3 = s2.with_trials_bumped_at(i);
    assert(s1.pending[i].trials == 1);
    assert(s2.pending[i].trials == 2);
    assert(s3.pending[i].trials == 3);
    assert(s1.pending[i].code == p.code);
    assert(s2.pending[i].code == p.code);
    assert(s3.pending[i].code == p.code);
}

} // verus!
