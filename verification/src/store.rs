//! The service's persistent state, modelled in memory: identity rows and
//! pending registration rows, with the invariants the storage engine
//! enforces through constraints — unique identifiers, unique emails, and
//! row identifiers handed out by a monotone counter.
//!
//! Each mutation is a single exclusive-access operation, which models a
//! transaction: callers compose them while holding the store exclusively,
//! so no partially applied state is ever observable.

use vstd::prelude::*;

use crate::error::ServiceError;

verus! {

/// A user identity row.
#[derive(Debug, Clone)]
pub struct Identity {
    /// Opaque unique identifier, immutable once assigned.
    pub id: i64,
    /// Unique email address.
    pub email: String,
    /// Display name.
    pub username: String,
    /// Digest of the account password.
    pub password_hash: String,
    /// The single currently valid refresh token, if any.
    pub refresh_token: Option<String>,
    /// Creation timestamp, seconds since the Unix epoch.
    pub registered_on: i64,
}

/// Mathematical image of an [`Identity`].
pub struct IdentityView {
    pub id: int,
    pub email: Seq<char>,
    pub username: Seq<char>,
    pub password_hash: Seq<char>,
    pub refresh_token: Option<Seq<char>>,
    pub registered_on: int,
}

impl View for Identity {
    type V = IdentityView;

    open spec fn view(&self) -> IdentityView {
        IdentityView {
            id: self.id as int,
            email: self.email@,
            username: self.username@,
            password_hash: self.password_hash@,
            refresh_token: match self.refresh_token {
                Some(t) => Some(t@),
                None => None,
            },
            registered_on: self.registered_on as int,
        }
    }
}

/// A pending registration row.
#[derive(Debug, Clone)]
pub struct PendingRegistration {
    /// Opaque unique request identifier.
    pub id: i64,
    /// Candidate email the registration is for.
    pub email: String,
    /// One-time code the confirmation must present.
    pub code: String,
    /// Creation timestamp, seconds since the Unix epoch.
    pub sent_on: i64,
    /// Failed confirmation attempts so far.
    pub trials: u32,
}

/// Mathematical image of a [`PendingRegistration`].
pub struct PendingView {
    pub id: int,
    pub email: Seq<char>,
    pub code: Seq<char>,
    pub sent_on: int,
    pub trials: u32,
}

impl View for PendingRegistration {
    type V = PendingView;

    open spec fn view(&self) -> PendingView {
        PendingView {
            id: self.id as int,
            email: self.email@,
            code: self.code@,
            sent_on: self.sent_on as int,
            trials: self.trials,
        }
    }
}

/// A failed attempt consumes budget; the counter saturates rather than
/// wrap.
pub open spec fn bump(trials: u32) -> u32 {
    if trials < u32::MAX {
        (trials + 1) as u32
    } else {
        trials
    }
}

/// The pending rows left once every row for an email is discarded.
pub open spec fn drop_email(s: Seq<PendingView>, email: Seq<char>) -> Seq<PendingView>
    decreases s.len(),
{
    if s.len() == 0 {
        s
    } else {
        let init = drop_email(s.drop_last(), email);
        if s.last().email == email {
            init
        } else {
            init.push(s.last())
        }
    }
}

/// Discarding an email's rows keeps a subset of the others: nothing for
/// that email remains, and every row kept was already present.
pub proof fn lemma_drop_email(s: Seq<PendingView>, email: Seq<char>)
    ensures
        drop_email(s, email).len() <= s.len(),
        forall|k: int|
            0 <= k < drop_email(s, email).len() ==> (#[trigger] drop_email(s, email)[k]).email
                != email,
        forall|k: int|
            0 <= k < drop_email(s, email).len() ==> s.contains(#[trigger] drop_email(s, email)[k]),
    decreases s.len(),
{
    if s.len() > 0 {
        let init = s.drop_last();
        lemma_drop_email(init, email);
        let r = drop_email(s, email);
        let ri = drop_email(init, email);
        assert(forall|j: int| 0 <= j < init.len() ==> init[j] == s[j]);
        assert forall|k: int| 0 <= k < r.len() implies s.contains(#[trigger] r[k]) by {
            if k < ri.len() {
                assert(init.contains(ri[k]));
                let j = choose|j: int| 0 <= j < init.len() && init[j] == ri[k];
                assert(s[j] == r[k]);
            } else {
                assert(r[k] == s.last());
                assert(s[s.len() - 1] == s.last());
            }
        }
    }
}

/// Discarding an email's rows keeps the remaining request identifiers
/// pairwise distinct.
pub proof fn lemma_drop_email_unique(s: Seq<PendingView>, email: Seq<char>)
    requires
        forall|i: int, j: int|
            0 <= i < j < s.len() ==> (#[trigger] s[i]).id != (#[trigger] s[j]).id,
    ensures
        forall|i: int, j: int|
            0 <= i < j < drop_email(s, email).len() ==> (#[trigger] drop_email(s, email)[i]).id
                != (#[trigger] drop_email(s, email)[j]).id,
    decreases s.len(),
{
    if s.len() > 0 {
        let init = s.drop_last();
        assert(forall|j: int| 0 <= j < init.len() ==> init[j] == s[j]);
        lemma_drop_email_unique(init, email);
        lemma_drop_email(init, email);
        if s.last().email != email {
            let r = drop_email(s, email);
            let ri = drop_email(init, email);
            assert forall|i: int, j: int| 0 <= i < j < r.len() implies (#[trigger] r[i]).id != (
            #[trigger] r[j]).id by {
                if j < ri.len() {
                } else {
                    assert(r[j] == s.last());
                    assert(ri.contains(r[i]));
                    let m = choose|m: int| 0 <= m < init.len() && init[m] == r[i];
                    assert(s[m] == r[i]);
                    assert(s[m].id != s[s.len() - 1].id);
                }
            }
        }
    }
}

/// Mathematical image of the whole store.
#[verifier::ext_equal]
pub struct StoreView {
    pub identities: Seq<IdentityView>,
    pub pending: Seq<PendingView>,
    pub next_user_id: int,
    pub next_req_id: int,
}

impl StoreView {
    /// The store with no rows.
    pub open spec fn empty() -> StoreView {
        StoreView { identities: Seq::empty(), pending: Seq::empty(), next_user_id: 0, next_req_id: 0 }
    }

    /// Invariants the storage engine's constraints enforce: identifiers
    /// and emails unique, identifiers below the monotone counters,
    /// timestamps non-negative, counters within machine range.
    pub open spec fn wf(self) -> bool {
        &&& forall|i: int, j: int|
            0 <= i < j < self.identities.len() ==> (#[trigger] self.identities[i]).id != (
            #[trigger] self.identities[j]).id
        &&& forall|i: int, j: int|
            0 <= i < j < self.identities.len() ==> (#[trigger] self.identities[i]).email != (
            #[trigger] self.identities[j]).email
        &&& forall|i: int|
            0 <= i < self.identities.len() ==> 0 <= (#[trigger] self.identities[i]).id
                < self.next_user_id
        &&& forall|i: int|
            0 <= i < self.identities.len() ==> 0 <= (#[trigger] self.identities[i]).registered_on
        &&& forall|i: int, j: int|
            0 <= i < j < self.pending.len() ==> (#[trigger] self.pending[i]).id != (
            #[trigger] self.pending[j]).id
        &&& forall|i: int|
            0 <= i < self.pending.len() ==> 0 <= (#[trigger] self.pending[i]).id < self.next_req_id
        &&& forall|i: int| 0 <= i < self.pending.len() ==> 0 <= (#[trigger] self.pending[i]).sent_on
        &&& 0 <= self.next_user_id <= i64::MAX
        &&& 0 <= self.next_req_id <= i64::MAX
    }

    /// Some identity row carries this identifier.
    pub open spec fn has_identity(self, id: int) -> bool {
        exists|i: int| 0 <= i < self.identities.len() && (#[trigger] self.identities[i]).id == id
    }

    /// Index of the identity row carrying this identifier.
    pub open spec fn identity_index(self, id: int) -> int {
        choose|i: int| 0 <= i < self.identities.len() && (#[trigger] self.identities[i]).id == id
    }

    /// The identity row carrying this identifier.
    pub open spec fn identity(self, id: int) -> IdentityView {
        self.identities[self.identity_index(id)]
    }

    /// Some identity row carries this email.
    pub open spec fn has_email(self, email: Seq<char>) -> bool {
        exists|i: int|
            0 <= i < self.identities.len() && (#[trigger] self.identities[i]).email == email
    }

    /// Index of the identity row carrying this email.
    pub open spec fn email_index(self, email: Seq<char>) -> int {
        choose|i: int|
            0 <= i < self.identities.len() && (#[trigger] self.identities[i]).email == email
    }

    /// Some pending registration row carries this request identifier.
    pub open spec fn has_pending(self, req_id: int) -> bool {
        exists|i: int| 0 <= i < self.pending.len() && (#[trigger] self.pending[i]).id == req_id
    }

    /// Index of the pending row carrying this request identifier.
    pub open spec fn pending_index(self, req_id: int) -> int {
        choose|i: int| 0 <= i < self.pending.len() && (#[trigger] self.pending[i]).id == req_id
    }

    /// The pending row carrying this request identifier.
    pub open spec fn pending_row(self, req_id: int) -> PendingView {
        self.pending[self.pending_index(req_id)]
    }

    /// The store after overwriting the refresh-token slot of the
    /// identity at an index.
    pub open spec fn with_refresh_token_at(self, i: int, token: Seq<char>) -> StoreView {
        StoreView {
            identities: self.identities.update(
                i,
                IdentityView { refresh_token: Some(token), ..self.identities[i] },
            ),
            ..self
        }
    }

    /// The store after appending a fresh pending registration.
    pub open spec fn with_pending_added(self, email: Seq<char>, code: Seq<char>, sent_on: int) -> StoreView {
        StoreView {
            pending: self.pending.push(
                PendingView { id: self.next_req_id, email, code, sent_on, trials: 0 },
            ),
            next_req_id: self.next_req_id + 1,
            ..self
        }
    }

    /// The store after a failed confirmation attempt on the pending row
    /// at an index consumed budget.
    pub open spec fn with_trials_bumped_at(self, i: int) -> StoreView {
        StoreView {
            pending: self.pending.update(
                i,
                PendingView { trials: bump(self.pending[i].trials), ..self.pending[i] },
            ),
            ..self
        }
    }

    /// The store after appending a fresh identity row.
    pub open spec fn with_identity_added(self, identity: IdentityView) -> StoreView {
        StoreView {
            identities: self.identities.push(identity),
            next_user_id: self.next_user_id + 1,
            ..self
        }
    }

    /// The store after removing the identity row at an index.
    pub open spec fn with_identity_removed_at(self, i: int) -> StoreView {
        StoreView { identities: self.identities.remove(i), ..self }
    }

    /// The store after rewriting email and username of the identity row
    /// at an index.
    pub open spec fn with_profile_at(self, i: int, email: Seq<char>, username: Seq<char>) -> StoreView {
        StoreView {
            identities: self.identities.update(
                i,
                IdentityView { email, username, ..self.identities[i] },
            ),
            ..self
        }
    }

    /// The store after discarding every pending row for an email.
    pub open spec fn with_pending_dropped(self, email: Seq<char>) -> StoreView {
        StoreView { pending: drop_email(self.pending, email), ..self }
    }

    /// In a well-formed store, an identity row's index is determined by
    /// its identifier.
    pub proof fn lemma_identity_index(self, id: int, i: int)
        requires
            self.wf(),
            0 <= i < self.identities.len(),
            self.identities[i].id == id,
        ensures
            self.has_identity(id),
            self.identity_index(id) == i,
            self.identity(id) == self.identities[i],
    {
        assert(self.has_identity(id));
        let j = self.identity_index(id);
        if i != j {
            assert(self.identities[i].id != self.identities[j].id);
        }
    }

    /// In a well-formed store, an identity row's index is determined by
    /// its email.
    pub proof fn lemma_email_index(self, email: Seq<char>, i: int)
        requires
            self.wf(),
            0 <= i < self.identities.len(),
            self.identities[i].email == email,
        ensures
            self.has_email(email),
            self.email_index(email) == i,
    {
        assert(self.has_email(email));
        let j = self.email_index(email);
        if i != j {
            assert(self.identities[i].email != self.identities[j].email);
        }
    }

    /// In a well-formed store, a pending row's index is determined by
    /// its request identifier.
    pub proof fn lemma_pending_index(self, req_id: int, i: int)
        requires
            self.wf(),
            0 <= i < self.pending.len(),
            self.pending[i].id == req_id,
        ensures
            self.has_pending(req_id),
            self.pending_index(req_id) == i,
            self.pending_row(req_id) == self.pending[i],
    {
        assert(self.has_pending(req_id));
        let j = self.pending_index(req_id);
        if i != j {
            assert(self.pending[i].id != self.pending[j].id);
        }
    }
}

/// The images of a sequence of identity rows.
pub open spec fn identity_views(s: Seq<Identity>) -> Seq<IdentityView> {
    s.map_values(|x: Identity| x@)
}

/// The images of a sequence of pending rows.
pub open spec fn pending_views(s: Seq<PendingRegistration>) -> Seq<PendingView> {
    s.map_values(|x: PendingRegistration| x@)
}

/// The in-memory store.
pub struct AuthStore {
    identities: Vec<Identity>,
    pending: Vec<PendingRegistration>,
    next_user_id: i64,
    next_req_id: i64,
}

impl View for AuthStore {
    type V = StoreView;

    closed spec fn view(&self) -> StoreView {
        StoreView {
            identities: identity_views(self.identities@),
            pending: pending_views(self.pending@),
            next_user_id: self.next_user_id as int,
            next_req_id: self.next_req_id as int,
        }
    }
}

impl AuthStore {
    /// An empty store.
    pub fn new() -> (s: AuthStore)
        ensures
            s@ == StoreView::empty(),
            s@.wf(),
    {
        let s = AuthStore { identities: Vec::new(), pending: Vec::new(), next_user_id: 0, next_req_id: 0 };
        proof {
            assert(s@.identities =~= Seq::<IdentityView>::empty());
            assert(s@.pending =~= Seq::<PendingView>::empty());
        }
        s
    }

    /// How many identity rows the store holds.
    pub fn identity_count(&self) -> (n: usize)
        ensures
            n == self@.identities.len(),
    {
        self.identities.len()
    }

    /// How many pending registration rows the store holds.
    pub fn pending_count(&self) -> (n: usize)
        ensures
            n == self@.pending.len(),
    {
        self.pending.len()
    }

    /// The identity row at an index.
    pub fn identity_at(&self, i: usize) -> (r: &Identity)
        requires
            i < self@.identities.len(),
        ensures
            r@ == self@.identities[i as int],
    {
        &self.identities[i]
    }

    /// The pending row at an index.
    pub fn pending_at(&self, i: usize) -> (r: &PendingRegistration)
        requires
            i < self@.pending.len(),
        ensures
            r@ == self@.pending[i as int],
    {
        &self.pending[i]
    }

    /// Find the identity row carrying an identifier.
    pub fn find_identity_by_id(&self, id: i64) -> (r: Option<usize>)
        ensures
            match r {
                Some(i) => i < self@.identities.len() && self@.identities[i as int].id == id,
                None => !self@.has_identity(id as int),
            },
    {
        let mut i: usize = 0;
        while i < self.identities.len()
            invariant
                i <= self@.identities.len(),
                forall|j: int| 0 <= j < i ==> (#[trigger] self@.identities[j]).id != id,
            decreases self@.identities.len() - i,
        {
            if self.identities[i].id == id {
                return Some(i);
            }
            i = i + 1;
        }
        None
    }

    /// Find the identity row carrying an email.
    pub fn find_identity_by_email(&self, email: &String) -> (r: Option<usize>)
        ensures
            match r {
                Some(i) => i < self@.identities.len() && self@.identities[i as int].email
                    == email@,
                None => !self@.has_email(email@),
            },
    {
        let mut i: usize = 0;
        while i < self.identities.len()
            invariant
                i <= self@.identities.len(),
                forall|j: int| 0 <= j < i ==> (#[trigger] self@.identities[j]).email != email@,
            decreases self@.identities.len() - i,
        {
            if self.identities[i].email == *email {
                return Some(i);
            }
            i = i + 1;
        }
        None
    }

    /// Find the pending row carrying a request identifier.
    pub fn find_pending(&self, req_id: i64) -> (r: Option<usize>)
        ensures
            match r {
                Some(i) => i < self@.pending.len() && self@.pending[i as int].id == req_id,
                None => !self@.has_pending(req_id as int),
            },
    {
        let mut i: usize = 0;
        while i < self.pending.len()
            invariant
                i <= self@.pending.len(),
                forall|j: int| 0 <= j < i ==> (#[trigger] self@.pending[j]).id != req_id,
            decreases self@.pending.len() - i,
        {
            if self.pending[i].id == req_id {
                return Some(i);
            }
            i = i + 1;
        }
        None
    }

    /// Overwrite the refresh-token slot of the identity at an index.
    pub fn set_refresh_token_at(&mut self, i: usize, token: String)
        requires
            i < old(self)@.identities.len(),
        ensures
            final(self)@ == old(self)@.with_refresh_token_at(i as int, token@),
            old(self)@.wf() ==> final(self)@.wf(),
    {
        let updated = Identity {
            id: self.identities[i].id,
            email: self.identities[i].email.clone(),
            username: self.identities[i].username.clone(),
            password_hash: self.identities[i].password_hash.clone(),
            refresh_token: Some(token),
            registered_on: self.identities[i].registered_on,
        };
        self.identities[i] = updated;
        proof {
            assert(self@.identities =~= old(self)@.with_refresh_token_at(i as int, token@).identities);
            assert(self@ =~= old(self)@.with_refresh_token_at(i as int, token@));
        }
    }

    /// Append a fresh pending registration and hand back its request
    /// identifier; fails only once the identifier space is exhausted.
    pub fn insert_pending(&mut self, email: String, code: String, sent_on: i64) -> (r: Result<
        i64,
        ServiceError,
    >)
        requires
            old(self)@.wf(),
            0 <= sent_on,
        ensures
            final(self)@.wf(),
            match r {
                Ok(req_id) => old(self)@.next_req_id < i64::MAX && req_id as int == old(
                    self,
                )@.next_req_id && final(self)@ == old(self)@.with_pending_added(email@, code@, sent_on as int),
                Err(e) => e == ServiceError::InternalServer && old(self)@.next_req_id == i64::MAX
                    && final(self)@ == old(self)@,
            },
    {
        if self.next_req_id == i64::MAX {
            return Err(ServiceError::InternalServer);
        }
        let req_id = self.next_req_id;
        self.pending.push(PendingRegistration { id: req_id, email, code, sent_on, trials: 0 });
        self.next_req_id = self.next_req_id + 1;
        proof {
            let target = old(self)@.with_pending_added(email@, code@, sent_on as int);
            assert(self@.pending =~= target.pending);
            assert(self@ =~= target);
        }
        Ok(req_id)
    }

    /// Consume one confirmation attempt of the pending row at an index.
    pub fn bump_trials_at(&mut self, i: usize)
        requires
            i < old(self)@.pending.len(),
        ensures
            final(self)@ == old(self)@.with_trials_bumped_at(i as int),
            old(self)@.wf() ==> final(self)@.wf(),
    {
        let trials = self.pending[i].trials;
        let updated = PendingRegistration {
            id: self.pending[i].id,
            email: self.pending[i].email.clone(),
            code: self.pending[i].code.clone(),
            sent_on: self.pending[i].sent_on,
            trials: if trials < u32::MAX {
                trials + 1
            } else {
                trials
            },
        };
        self.pending[i] = updated;
        proof {
            assert(self@.pending =~= old(self)@.with_trials_bumped_at(i as int).pending);
            assert(self@ =~= old(self)@.with_trials_bumped_at(i as int));
        }
    }

    /// Append a fresh identity row and hand back its identifier. Refused
    /// with a conflict when the email is already taken; fails internally
    /// only once the identifier space is exhausted.
    pub fn insert_identity(
        &mut self,
        email: String,
        username: String,
        password_hash: String,
        registered_on: i64,
    ) -> (r: Result<i64, ServiceError>)
        requires
            old(self)@.wf(),
            0 <= registered_on,
        ensures
            final(self)@.wf(),
            match r {
                Ok(id) => !old(self)@.has_email(email@) && old(self)@.next_user_id < i64::MAX && id
                    as int == old(self)@.next_user_id && final(self)@ == old(self)@.with_identity_added(
                    IdentityView {
                        id: old(self)@.next_user_id,
                        email: email@,
                        username: username@,
                        password_hash: password_hash@,
                        refresh_token: None,
                        registered_on: registered_on as int,
                    },
                ),
                Err(e) => final(self)@ == old(self)@ && match e {
                    ServiceError::Conflict(f) => f@ == "email"@ && old(self)@.has_email(email@),
                    ServiceError::InternalServer => !old(self)@.has_email(email@) && old(
                        self,
                    )@.next_user_id == i64::MAX,
                    _ => false,
                },
            },
    {
        if let Some(_) = self.find_identity_by_email(&email) {
            return Err(ServiceError::Conflict("email".to_owned()));
        }
        if self.next_user_id == i64::MAX {
            return Err(ServiceError::InternalServer);
        }
        let id = self.next_user_id;
        self.identities.push(Identity {
            id,
            email,
            username,
            password_hash,
            refresh_token: None,
            registered_on,
        });
        self.next_user_id = self.next_user_id + 1;
        proof {
            let target = old(self)@.with_identity_added(
                IdentityView {
                    id: old(self)@.next_user_id,
                    email: email@,
                    username: username@,
                    password_hash: password_hash@,
                    refresh_token: None,
                    registered_on: registered_on as int,
                },
            );
            assert(self@.identities =~= target.identities);
            assert(self@ =~= target);
        }
        Ok(id)
    }

    /// Rewrite email and username of the identity row at an index;
    /// fields left out keep their value. The caller must have ruled out
    /// an email collision with any other row.
    pub fn update_profile_at(&mut self, i: usize, email: Option<String>, username: Option<String>)
        requires
            old(self)@.wf(),
            i < old(self)@.identities.len(),
            match email {
                Some(e) => forall|j: int|
                    0 <= j < old(self)@.identities.len() && j != i ==> (#[trigger] old(
                        self,
                    )@.identities[j]).email != e@,
                None => true,
            },
        ensures
            final(self)@.wf(),
            final(self)@ == old(self)@.with_profile_at(
                i as int,
                match email {
                    Some(e) => e@,
                    None => old(self)@.identities[i as int].email,
                },
                match username {
                    Some(u) => u@,
                    None => old(self)@.identities[i as int].username,
                },
            ),
    {
        let new_email = match email {
            Some(e) => e,
            None => self.identities[i].email.clone(),
        };
        let new_username = match username {
            Some(u) => u,
            None => self.identities[i].username.clone(),
        };
        let updated = Identity {
            id: self.identities[i].id,
            email: new_email,
            username: new_username,
            password_hash: self.identities[i].password_hash.clone(),
            refresh_token: match &self.identities[i].refresh_token {
                Some(t) => Some(t.clone()),
                None => None,
            },
            registered_on: self.identities[i].registered_on,
        };
        let ghost target_email = new_email@;
        let ghost target_username = new_username@;
        self.identities[i] = updated;
        proof {
            let target = old(self)@.with_profile_at(i as int, target_email, target_username);
            assert(self@.identities =~= target.identities);
            assert(self@ =~= target);
            assert(forall|k: int|
                0 <= k < self@.identities.len() && k != i ==> (#[trigger] self@.identities[k])
                    == old(self)@.identities[k]);
        }
    }

    /// Remove the identity row at an index.
    pub fn remove_identity_at(&mut self, i: usize)
        requires
            i < old(self)@.identities.len(),
        ensures
            final(self)@ == old(self)@.with_identity_removed_at(i as int),
            old(self)@.wf() ==> final(self)@.wf(),
    {
        self.identities.remove(i);
        proof {
            assert(self@.identities =~= old(self)@.with_identity_removed_at(i as int).identities);
            assert(self@ =~= old(self)@.with_identity_removed_at(i as int));
        }
    }

    /// Discard every pending registration for an email.
    pub fn remove_pending_with_email(&mut self, email: &String)
        ensures
            final(self)@ == old(self)@.with_pending_dropped(email@),
            old(self)@.wf() ==> final(self)@.wf(),
    {
        let ghost orig = pending_views(self.pending@);
        let mut kept: Vec<PendingRegistration> = Vec::new();
        let mut i: usize = 0;
        while i < self.pending.len()
            invariant
                i <= self.pending@.len(),
                orig == pending_views(self.pending@),
                pending_views(kept@) == drop_email(orig.subrange(0, i as int), email@),
            decreases self.pending@.len() - i,
        {
            proof {
                assert(orig.subrange(0, i as int + 1).drop_last() =~= orig.subrange(0, i as int));
                assert(orig.subrange(0, i as int + 1).last() == orig[i as int]);
            }
            if !(self.pending[i].email == *email) {
                let copied = PendingRegistration {
                    id: self.pending[i].id,
                    email: self.pending[i].email.clone(),
                    code: self.pending[i].code.clone(),
                    sent_on: self.pending[i].sent_on,
                    trials: self.pending[i].trials,
                };
                kept.push(copied);
                proof {
                    assert(pending_views(kept@) =~= drop_email(
                        orig.subrange(0, i as int + 1),
                        email@,
                    ));
                }
            } else {
                proof {
                    assert(pending_views(kept@) =~= drop_email(
                        orig.subrange(0, i as int + 1),
                        email@,
                    ));
                }
            }
            i = i + 1;
        }
        proof {
            assert(orig.subrange(0, orig.len() as int) =~= orig);
        }
        self.pending = kept;
        proof {
            assert(self@ =~= old(self)@.with_pending_dropped(email@));
            if old(self)@.wf() {
                lemma_drop_email(orig, email@);
                lemma_drop_email_unique(orig, email@);
                assert forall|k: int|
                    0 <= k < self@.pending.len() implies 0 <= (#[trigger] self@.pending[k]).id
                    < self@.next_req_id && 0 <= self@.pending[k].sent_on by {
                    assert(orig.contains(self@.pending[k]));
                    let m = choose|m: int| 0 <= m < orig.len() && orig[m] == self@.pending[k];
                }
            }
        }
    }
}

} // verus!
