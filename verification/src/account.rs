//! User account routes: the thin create/read/update/delete surface
//! around identity rows. Reads require a weak identity; the sensitive
//! mutations — profile update and deletion — require the strong tier,
//! and with anything less they are refused with the identity untouched.

use vstd::prelude::*;

use crate::crypto::{digest_matches, hash_password};
use crate::error::ErrorDto;
use crate::middleware::{spec_is_strong, AuthStatus};
use crate::store::{AuthStore, Identity, IdentityView};

verus! {

/// Private projection of an identity row, as returned to its owner.
#[derive(Debug, Clone, PartialEq, Eq)]
pub struct UserDto {
    pub id: i64,
    pub username: String,
    pub email: String,
    pub registered_on: i64,
}

/// Public projection of an identity row.
#[derive(Debug, Clone, PartialEq, Eq)]
pub struct UserPublicDto {
    pub id: i64,
    pub username: String,
}

/// A direct account-creation request.
#[derive(Debug, Clone)]
pub struct CreateUserRequest {
    pub email: String,
    pub username: String,
    pub password: String,
}

/// A profile update; fields left out keep their value.
#[derive(Debug, Clone)]
pub struct UpdateUserRequest {
    pub email: Option<String>,
    pub username: Option<String>,
}

impl UserDto {
    /// The owner-facing projection of an identity row.
    pub fn of_identity(identity: &Identity) -> (r: UserDto)
        ensures
            r.id as int == identity@.id,
            r.username@ == identity@.username,
            r.email@ == identity@.email,
            r.registered_on as int == identity@.registered_on,
    {
        UserDto {
            id: identity.id,
            username: identity.username.clone(),
            email: identity.email.clone(),
            registered_on: identity.registered_on,
        }
    }
}

impl UserPublicDto {
    /// The public projection of an identity row.
    pub fn of_identity(identity: &Identity) -> (r: UserPublicDto)
        ensures
            r.id as int == identity@.id,
            r.username@ == identity@.username,
    {
        UserPublicDto { id: identity.id, username: identity.username.clone() }
    }
}

/// Create an account directly: hash the password and append the
/// identity row, refusing a taken email with a conflict.
pub fn create_user(store: &mut AuthStore, request: CreateUserRequest, now: i64) -> (r: Result<
    UserDto,
    ErrorDto,
>)
    requires
        old(store)@.wf(),
        0 <= now,
    ensures
        final(store)@.wf(),
        match r {
            Ok(dto) => !old(store)@.has_email(request.email@) && old(store)@.next_user_id
                < i64::MAX && dto.id as int == old(store)@.next_user_id && dto.username@
                == request.username@ && dto.email@ == request.email@ && dto.registered_on == now
                && (exists|h: Seq<char>|
                #[trigger] digest_matches(h, request.password@) && final(store)@ == old(
                    store,
                )@.with_identity_added(
                    IdentityView {
                        id: old(store)@.next_user_id,
                        email: request.email@,
                        username: request.username@,
                        password_hash: h,
                        refresh_token: None,
                        registered_on: now as int,
                    },
                )),
            Err(e) => final(store)@ == old(store)@ && match e {
                ErrorDto::Conflict(f) => f@ == "email"@ && old(store)@.has_email(request.email@),
                ErrorDto::Internal => true,
                _ => false,
            },
        },
{
    let digest = match hash_password(request.password.as_str()) {
        Some(d) => d,
        None => {
            return Err(ErrorDto::Internal);
        },
    };
    let username = request.username.clone();
    let email = request.email.clone();
    match store.insert_identity(request.email, request.username, digest, now) {
        Ok(id) => Ok(UserDto { id, username, email, registered_on: now }),
        Err(crate::error::ServiceError::Conflict(f)) => Err(ErrorDto::Conflict(f)),
        Err(_) => Err(ErrorDto::Internal),
    }
}

/// The identity of the authenticated requester, as its owner sees it.
pub fn get_user(store: &AuthStore, status: &Option<AuthStatus>) -> (r: Result<
    UserPublicDto,
    ErrorDto,
>)
    requires
        store@.wf(),
    ensures
        match status {
            None => r matches Err(e) && e == ErrorDto::InvalidCredentials,
            Some(st) => if store@.has_identity(st.user_id as int) {
                r matches Ok(dto) && dto.id as int == st.user_id as int && dto.username@
                    == store@.identity(st.user_id as int).username
            } else {
                r matches Err(e) && e == ErrorDto::NotFound
            },
        },
{
    let st = match status {
        Some(st) => st,
        None => {
            return Err(ErrorDto::InvalidCredentials);
        },
    };
    let idx = match store.find_identity_by_id(st.user_id) {
        Some(i) => i,
        None => {
            return Err(ErrorDto::NotFound);
        },
    };
    proof {
        store@.lemma_identity_index(st.user_id as int, idx as int);
    }
    Ok(UserPublicDto::of_identity(store.identity_at(idx)))
}

/// The public profile of any identity, for an authenticated requester.
pub fn get_user_public(store: &AuthStore, status: &Option<AuthStatus>, user_id: i64) -> (r: Result<
    UserPublicDto,
    ErrorDto,
>)
    requires
        store@.wf(),
    ensures
        match status {
            None => r matches Err(e) && e == ErrorDto::InvalidCredentials,
            Some(_) => if store@.has_identity(user_id as int) {
                r matches Ok(dto) && dto.id as int == user_id as int && dto.username@
                    == store@.identity(user_id as int).username
            } else {
                r matches Err(e) && e == ErrorDto::NotFound
            },
        },
{
    if status.is_none() {
        return Err(ErrorDto::InvalidCredentials);
    }
    let idx = match store.find_identity_by_id(user_id) {
        Some(i) => i,
        None => {
            return Err(ErrorDto::NotFound);
        },
    };
    proof {
        store@.lemma_identity_index(user_id as int, idx as int);
    }
    Ok(UserPublicDto::of_identity(store.identity_at(idx)))
}

/// Update the requester's profile. Requires the strong tier: with
/// anything less the request is refused and the store untouched. A new
/// email colliding with another identity is refused with a conflict.
pub fn update_user(store: &mut AuthStore, status: &Option<AuthStatus>, request: UpdateUserRequest) -> (r:
    Result<UserDto, ErrorDto>)
    requires
        old(store)@.wf(),
    ensures
        final(store)@.wf(),
        !spec_is_strong(*status) ==> (r matches Err(e) && e == ErrorDto::InvalidCredentials
            && final(store)@ == old(store)@),
        match r {
            Ok(dto) => {
                let s = old(store)@;
                let st = status->Some_0;
                let i = s.identity_index(st.user_id as int);
                let new_email = match request.email {
                    Some(e) => e@,
                    None => s.identities[i].email,
                };
                let new_username = match request.username {
                    Some(u) => u@,
                    None => s.identities[i].username,
                };
                &&& spec_is_strong(*status)
                &&& s.has_identity(st.user_id as int)
                &&& final(store)@ == s.with_profile_at(i, new_email, new_username)
                &&& dto.id as int == s.identities[i].id
                &&& dto.email@ == new_email
                &&& dto.username@ == new_username
                &&& dto.registered_on as int == s.identities[i].registered_on
            },
            Err(e) => final(store)@ == old(store)@ && match e {
                ErrorDto::InvalidCredentials => !spec_is_strong(*status),
                ErrorDto::NotFound => spec_is_strong(*status) && !old(store)@.has_identity(
                    status->Some_0.user_id as int,
                ),
                ErrorDto::Conflict(f) => {
                    let s = old(store)@;
                    let st = status->Some_0;
                    &&& f@ == "email"@
                    &&& spec_is_strong(*status)
                    &&& s.has_identity(st.user_id as int)
                    &&& request.email matches Some(e) && (exists|j: int|
                        0 <= j < s.identities.len() && j != s.identity_index(st.user_id as int)
                            && (#[trigger] s.identities[j]).email == e@)
                },
                _ => false,
            },
        },
{
    let st = match status {
        Some(st) => *st,
        None => {
            return Err(ErrorDto::InvalidCredentials);
        },
    };
    if !st.strong {
        return Err(ErrorDto::InvalidCredentials);
    }
    let idx = match store.find_identity_by_id(st.user_id) {
        Some(i) => i,
        None => {
            return Err(ErrorDto::NotFound);
        },
    };
    proof {
        old(store)@.lemma_identity_index(st.user_id as int, idx as int);
    }
    if let Some(e) = &request.email {
        match store.find_identity_by_email(e) {
            Some(other) => {
                if other != idx {
                    proof {
                        old(store)@.lemma_email_index(e@, other as int);
                    }
                    return Err(ErrorDto::Conflict("email".to_owned()));
                }
            },
            None => {},
        }
    }
    proof {
        if request.email is Some {
            let e = request.email->Some_0;
            assert forall|j: int|
                0 <= j < old(store)@.identities.len() && j != idx implies (#[trigger] old(
                store,
            )@.identities[j]).email != e@ by {
                if old(store)@.identities[j].email == e@ {
                    old(store)@.lemma_email_index(e@, j);
                    old(store)@.lemma_email_index(e@, idx as int);
                }
            }
        }
    }
    store.update_profile_at(idx, request.email, request.username);
    let identity = store.identity_at(idx);
    Ok(UserDto::of_identity(identity))
}

/// Delete the requester's account. Requires the strong tier: with
/// anything less the request is refused and the store untouched.
pub fn delete_user(store: &mut AuthStore, status: &Option<AuthStatus>) -> (r: Result<
    (),
    ErrorDto,
>)
    requires
        old(store)@.wf(),
    ensures
        final(store)@.wf(),
        !spec_is_strong(*status) ==> (r matches Err(e) && e == ErrorDto::InvalidCredentials
            && final(store)@ == old(store)@),
        match r {
            Ok(_) => {
                let st = status->Some_0;
                &&& spec_is_strong(*status)
                &&& old(store)@.has_identity(st.user_id as int)
                &&& final(store)@ == old(store)@.with_identity_removed_at(
                    old(store)@.identity_index(st.user_id as int),
                )
            },
            Err(e) => final(store)@ == old(store)@ && match e {
                ErrorDto::InvalidCredentials => !spec_is_strong(*status),
                ErrorDto::NotFound => spec_is_strong(*status) && !old(store)@.has_identity(
                    status->Some_0.user_id as int,
                ),
                _ => false,
            },
        },
{
    let st = match status {
        Some(st) => *st,
        None => {
            return Err(ErrorDto::InvalidCredentials);
        },
    };
    if !st.strong {
        return Err(ErrorDto::InvalidCredentials);
    }
    let idx = match store.find_identity_by_id(st.user_id) {
        Some(i) => i,
        None => {
            return Err(ErrorDto::NotFound);
        },
    };
    proof {
        old(store)@.lemma_identity_index(st.user_id as int, idx as int);
    }
    store.remove_identity_at(idx);
    Ok(())
}

} // verus!
