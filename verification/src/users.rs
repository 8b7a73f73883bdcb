//! The persisted account rows, modelled as a table keyed by user id.
//!
//! The table enforces the two uniqueness guarantees the persistent store
//! gives the protocols: ids are unique (and handed out in increasing order),
//! and no two accounts share an email. Creation and update timestamps are
//! owned by the storage backend and never read by the protocols, so they are
//! not part of this model.

use vstd::prelude::*;

use crate::errors::AuthError;
use crate::strutil::str_eq;

verus! {

/// One account row.
pub struct User {
    pub id: i32,
    pub name: String,
    pub email: String,
    pub password_hash: String,
    pub phone: Option<String>,
    pub is_confirmed: bool,
}

/// Spec-level snapshot of an account row, without its id.
pub ghost struct UserV {
    pub name: Seq<char>,
    pub email: Seq<char>,
    pub password_hash: Seq<char>,
    pub phone: Option<Seq<char>>,
    pub is_confirmed: bool,
}

impl View for User {
    type V = UserV;

    open spec fn view(&self) -> UserV {
        UserV {
            name: self.name@,
            email: self.email@,
            password_hash: self.password_hash@,
            phone: match self.phone {
                Some(p) => Some(p@),
                None => None,
            },
            is_confirmed: self.is_confirmed,
        }
    }
}

/// The user rows owned by the persistent store.
pub struct UserTable {
    users: Vec<User>,
    next_id: i32,
}

pub open spec fn ids_unique(s: Seq<User>) -> bool {
    forall|i: int, j: int| 0 <= i < j < s.len() ==> s[i].id != s[j].id
}

pub open spec fn emails_unique(s: Seq<User>) -> bool {
    forall|i: int, j: int| 0 <= i < j < s.len() ==> s[i].email@ != s[j].email@
}

impl UserTable {
    spec fn users_map(s: Seq<User>) -> Map<int, UserV>
        decreases s.len(),
    {
        if s.len() == 0 {
            Map::empty()
        } else {
            Self::users_map(s.drop_last()).insert(s.last().id as int, s.last()@)
        }
    }

    /// The table contents: user id to account snapshot.
    pub closed spec fn contents(self) -> Map<int, UserV> {
        Self::users_map(self.users@)
    }

    /// The id the next created account will receive.
    pub closed spec fn spec_next_id(self) -> int {
        self.next_id as int
    }

    pub closed spec fn wf(self) -> bool {
        &&& ids_unique(self.users@)
        &&& emails_unique(self.users@)
        &&& forall|i: int|
            0 <= i < self.users@.len() ==> 1 <= #[trigger] self.users@[i].id < self.next_id
        &&& self.next_id >= 1
    }

    /// Whether some account already uses `email`.
    pub open spec fn spec_email_taken(self, email: Seq<char>) -> bool {
        exists|uid: int|
            self.contents().contains_key(uid) && #[trigger] self.contents()[uid].email == email
    }

    /// The id of the account using `email`; meaningful when the email is
    /// taken, since emails are unique.
    pub open spec fn spec_id_for_email(self, email: Seq<char>) -> int {
        choose|uid: int|
            self.contents().contains_key(uid) && #[trigger] self.contents()[uid].email == email
    }

    /// Whether giving account `id` the address `email` would collide with a
    /// different account.
    pub open spec fn spec_email_conflict(self, id: int, email: Seq<char>) -> bool {
        self.spec_email_taken(email) && self.spec_id_for_email(email) != id
    }

    proof fn lemma_map_contains(s: Seq<User>, id: int)
        ensures
            Self::users_map(s).contains_key(id) <==> exists|i: int|
                0 <= i < s.len() && s[i].id == id,
        decreases s.len(),
    {
        if s.len() > 0 {
            let sd = s.drop_last();
            Self::lemma_map_contains(sd, id);
            if s.last().id == id {
                assert(s[s.len() - 1].id == id);
            } else {
                if exists|i: int| 0 <= i < s.len() && s[i].id == id {
                    let i = choose|i: int| 0 <= i < s.len() && s[i].id == id;
                    assert(sd[i] == s[i]);
                }
                if Self::users_map(sd).contains_key(id) {
                    let i = choose|i: int| 0 <= i < sd.len() && sd[i].id == id;
                    assert(s[i] == sd[i]);
                }
            }
        }
    }

    proof fn lemma_map_index(s: Seq<User>, i: int)
        requires
            ids_unique(s),
            0 <= i < s.len(),
        ensures
            Self::users_map(s).contains_key(s[i].id as int),
            Self::users_map(s)[s[i].id as int] == s[i]@,
        decreases s.len(),
    {
        let sd = s.drop_last();
        if i < s.len() - 1 {
            assert(ids_unique(sd));
            assert(sd[i] == s[i]);
            Self::lemma_map_index(sd, i);
            assert(s.last().id != s[i].id);
        }
    }

    proof fn lemma_map_remove(s: Seq<User>, i: int)
        requires
            ids_unique(s),
            0 <= i < s.len(),
        ensures
            ids_unique(s.remove(i)),
            emails_unique(s) ==> emails_unique(s.remove(i)),
            Self::users_map(s.remove(i)) =~= Self::users_map(s).remove(s[i].id as int),
        decreases s.len(),
    {
        let id = s[i].id as int;
        let sd = s.drop_last();
        assert(ids_unique(sd));
        if i == s.len() - 1 {
            assert(s.remove(i) =~= sd);
            Self::lemma_map_contains(sd, id);
            assert(!Self::users_map(sd).contains_key(id));
            assert(Self::users_map(sd) =~= Self::users_map(s).remove(id));
        } else {
            assert(sd[i] == s[i]);
            assert(emails_unique(s) ==> emails_unique(sd));
            Self::lemma_map_remove(sd, i);
            assert(s.remove(i).drop_last() =~= sd.remove(i));
            assert(s.remove(i).last() == s.last());
            assert(s.last().id != s[i].id);
            assert(Self::users_map(s.remove(i)) =~= Self::users_map(sd.remove(i)).insert(
                s.last().id as int,
                s.last()@,
            ));
            assert(Self::users_map(sd).remove(id).insert(s.last().id as int, s.last()@)
                =~= Self::users_map(s).remove(id));
        }
    }

    proof fn lemma_map_update(s: Seq<User>, i: int, u: User)
        requires
            ids_unique(s),
            0 <= i < s.len(),
            u.id == s[i].id,
        ensures
            ids_unique(s.update(i, u)),
            Self::users_map(s.update(i, u)) =~= Self::users_map(s).insert(u.id as int, u@),
        decreases s.len(),
    {
        let id = s[i].id as int;
        let sd = s.drop_last();
        assert(ids_unique(sd));
        if i == s.len() - 1 {
            assert(s.update(i, u).drop_last() =~= sd);
            assert(s.update(i, u).last() == u);
            assert(Self::users_map(sd).insert(id, u@) =~= Self::users_map(s).insert(id, u@));
        } else {
            assert(sd[i] == s[i]);
            Self::lemma_map_update(sd, i, u);
            assert(s.update(i, u).drop_last() =~= sd.update(i, u));
            assert(s.update(i, u).last() == s.last());
            assert(s.last().id != u.id);
            assert(Self::users_map(s.update(i, u)) =~= Self::users_map(sd.update(i, u)).insert(
                s.last().id as int,
                s.last()@,
            ));
            assert(Self::users_map(sd).insert(id, u@).insert(s.last().id as int, s.last()@)
                =~= Self::users_map(s).insert(id, u@));
        }
    }

    /// An empty table; ids start at 1.
    pub fn new() -> (table: UserTable)
        ensures
            table.wf(),
            table.contents() == Map::<int, UserV>::empty(),
    {
        UserTable { users: Vec::new(), next_id: 1 }
    }

    /// Finds the row index holding `id`, if any.
    fn find_by_id(&self, id: i32) -> (r: Option<usize>)
        requires
            self.wf(),
        ensures
            match r {
                Some(i) => i < self.users_seq().len() && self.users_seq()[i as int].id == id,
                None => !self.contents().contains_key(id as int),
            },
    {
        let n = self.users.len();
        let mut i: usize = 0;
        while i < n
            invariant
                n == self.users@.len(),
                0 <= i <= n,
                forall|j: int| 0 <= j < i ==> self.users@[j].id != id,
            decreases n - i,
        {
            if self.users[i].id == id {
                return Some(i);
            }
            i = i + 1;
        }
        proof {
            Self::lemma_map_contains(self.users@, id as int);
        }
        None
    }

    /// The raw row sequence, exposed for contracts of private helpers only.
    closed spec fn users_seq(self) -> Seq<User> {
        self.users@
    }

    /// Creates an unconfirmed account with a fresh id.
    ///
    /// Fails with a conflict exactly when the email is already taken; fails
    /// internally only when the id space is exhausted.
    pub fn create_user(&mut self, name: &str, email: &str, password_hash: &str) -> (r: Result<
        i32,
        AuthError,
    >)
        requires
            old(self).wf(),
        ensures
            final(self).wf(),
            match r {
                Ok(id) => {
                    &&& !old(self).spec_email_taken(email@)
                    &&& !old(self).contents().contains_key(id as int)
                    &&& id as int == old(self).spec_next_id()
                    &&& id >= 1
                    &&& final(self).contents() == old(self).contents().insert(
                        id as int,
                        UserV {
                            name: name@,
                            email: email@,
                            password_hash: password_hash@,
                            phone: None,
                            is_confirmed: false,
                        },
                    )
                },
                Err(e) => {
                    &&& *final(self) == *old(self)
                    &&& (e == AuthError::ConflictFailure <==> old(self).spec_email_taken(email@))
                    &&& (e == AuthError::InternalFailure <==> (!old(self).spec_email_taken(email@)
                        && old(self).spec_next_id() == i32::MAX))
                    &&& (e == AuthError::ConflictFailure || e == AuthError::InternalFailure)
                },
            },
    {
        if self.email_taken(email) {
            return Err(AuthError::ConflictFailure);
        }
        if self.next_id == i32::MAX {
            return Err(AuthError::InternalFailure);
        }
        let id = self.next_id;
        proof {
            Self::lemma_map_contains(self.users@, id as int);
        }
        let user = User {
            id,
            name: String::from_str(name),
            email: String::from_str(email),
            password_hash: String::from_str(password_hash),
            phone: None,
            is_confirmed: false,
        };
        let ghost pre = self.users@;
        proof {
            assert forall|j: int| 0 <= j < pre.len() implies pre[j].email@ != email@ by {
                Self::lemma_map_index(pre, j);
                if pre[j].email@ == email@ {
                    assert(self.contents()[pre[j].id as int].email == email@);
                    assert(self.spec_email_taken(email@));
                }
            }
        }
        self.users.push(user);
        self.next_id = id + 1;
        proof {
            assert(self.users@.drop_last() =~= pre);
            assert(self.contents() =~= old(self).contents().insert(
                id as int,
                UserV {
                    name: name@,
                    email: email@,
                    password_hash: password_hash@,
                    phone: None,
                    is_confirmed: false,
                },
            ));
        }
        Ok(id)
    }

    /// Whether some row already uses `email`.
    pub fn email_taken(&self, email: &str) -> (r: bool)
        requires
            self.wf(),
        ensures
            r == self.spec_email_taken(email@),
    {
        let n = self.users.len();
        let mut i: usize = 0;
        while i < n
            invariant
                self.wf(),
                n == self.users@.len(),
                0 <= i <= n,
                forall|j: int| 0 <= j < i ==> self.users@[j].email@ != email@,
            decreases n - i,
        {
            if str_eq(self.users[i].email.as_str(), email) {
                proof {
                    Self::lemma_map_index(self.users@, i as int);
                    assert(self.contents()[self.users@[i as int].id as int].email == email@);
                    assert(self.spec_email_taken(email@));
                }
                return true;
            }
            i = i + 1;
        }
        proof {
            if self.spec_email_taken(email@) {
                let uid = choose|uid: int|
                    self.contents().contains_key(uid) && #[trigger] self.contents()[uid].email
                        == email@;
                Self::lemma_map_contains(self.users@, uid);
                let i = choose|i: int| 0 <= i < self.users@.len() && self.users@[i].id == uid;
                Self::lemma_map_index(self.users@, i);
            }
        }
        false
    }

    /// Fetches the row whose email is `email`, as
    /// (id, name, email, password_hash, phone, is_confirmed).
    pub fn get_user_by_email(&self, email: &str) -> (r: Result<
        (i32, String, String, String, Option<String>, bool),
        AuthError,
    >)
        requires
            self.wf(),
        ensures
            r is Ok <==> self.spec_email_taken(email@),
            match r {
                Ok((id, name, email_out, password_hash, phone, is_confirmed)) => {
                    &&& id >= 1
                    &&& self.contents().contains_key(id as int)
                    &&& self.contents()[id as int] == UserV {
                        name: name@,
                        email: email@,
                        password_hash: password_hash@,
                        phone: match phone {
                            Some(p) => Some(p@),
                            None => None,
                        },
                        is_confirmed,
                    }
                    &&& email_out@ == email@
                },
                Err(e) => e == AuthError::AuthenticationFailure,
            },
    {
        let n = self.users.len();
        let mut i: usize = 0;
        while i < n
            invariant
                self.wf(),
                n == self.users@.len(),
                0 <= i <= n,
                forall|j: int| 0 <= j < i ==> self.users@[j].email@ != email@,
            decreases n - i,
        {
            if str_eq(self.users[i].email.as_str(), email) {
                proof {
                    Self::lemma_map_index(self.users@, i as int);
                    assert(self.contents()[self.users@[i as int].id as int].email == email@);
                    assert(self.spec_email_taken(email@));
                }
                let u = &self.users[i];
                let phone = match &u.phone {
                    Some(p) => Some(p.clone()),
                    None => None,
                };
                return Ok(
                    (u.id, u.name.clone(), u.email.clone(), u.password_hash.clone(), phone, u.is_confirmed),
                );
            }
            i = i + 1;
        }
        proof {
            if self.spec_email_taken(email@) {
                let uid = choose|uid: int|
                    self.contents().contains_key(uid) && #[trigger] self.contents()[uid].email
                        == email@;
                Self::lemma_map_contains(self.users@, uid);
                let i = choose|i: int| 0 <= i < self.users@.len() && self.users@[i].id == uid;
                Self::lemma_map_index(self.users@, i);
            }
        }
        Err(AuthError::AuthenticationFailure)
    }

    /// Fetches the row with id `id`, as (id, name, email, phone, is_confirmed).
    pub fn get_user_by_id(&self, id: &i32) -> (r: Result<
        (i32, String, String, Option<String>, bool),
        AuthError,
    >)
        requires
            self.wf(),
        ensures
            r is Ok <==> self.contents().contains_key(*id as int),
            match r {
                Ok((id_out, name, email, phone, is_confirmed)) => {
                    &&& id_out == *id
                    &&& *id >= 1
                    &&& self.contents()[*id as int] == UserV {
                        name: name@,
                        email: email@,
                        password_hash: self.contents()[*id as int].password_hash,
                        phone: match phone {
                            Some(p) => Some(p@),
                            None => None,
                        },
                        is_confirmed,
                    }
                },
                Err(e) => e == AuthError::AuthenticationFailure,
            },
    {
        match self.find_by_id(*id) {
            Some(i) => {
                proof {
                    Self::lemma_map_index(self.users@, i as int);
                }
                let u = &self.users[i];
                let phone = match &u.phone {
                    Some(p) => Some(p.clone()),
                    None => None,
                };
                Ok((u.id, u.name.clone(), u.email.clone(), phone, u.is_confirmed))
            },
            None => Err(AuthError::AuthenticationFailure),
        }
    }

    /// Marks the account confirmed.
    pub fn confirm_user(&mut self, id: &i32) -> (r: Result<(), AuthError>)
        requires
            old(self).wf(),
        ensures
            final(self).wf(),
            r is Ok <==> old(self).contents().contains_key(*id as int),
            r is Ok ==> final(self).contents() == old(self).contents().insert(
                *id as int,
                UserV { is_confirmed: true, ..old(self).contents()[*id as int] },
            ),
            r is Err ==> *final(self) == *old(self) && r == Result::<(), AuthError>::Err(
                AuthError::InternalFailure,
            ),
    {
        match self.find_by_id(*id) {
            Some(i) => {
                proof {
                    Self::lemma_map_index(self.users@, i as int);
                }
                let u = &self.users[i];
                let updated = User {
                    id: u.id,
                    name: u.name.clone(),
                    email: u.email.clone(),
                    password_hash: u.password_hash.clone(),
                    phone: match &u.phone {
                        Some(p) => Some(p.clone()),
                        None => None,
                    },
                    is_confirmed: true,
                };
                proof {
                    Self::lemma_map_update(self.users@, i as int, updated);
                    Self::lemma_emails_unique_update(self.users@, i as int, updated);
                }
                self.users[i] = updated;
                Ok(())
            },
            None => Err(AuthError::InternalFailure),
        }
    }

    /// Replaces the stored password hash.
    pub fn update_user_password(&mut self, id: &i32, password_hash: &str) -> (r: Result<
        (),
        AuthError,
    >)
        requires
            old(self).wf(),
        ensures
            final(self).wf(),
            r is Ok <==> old(self).contents().contains_key(*id as int),
            r is Ok ==> final(self).contents() == old(self).contents().insert(
                *id as int,
                UserV { password_hash: password_hash@, ..old(self).contents()[*id as int] },
            ),
            r is Err ==> *final(self) == *old(self) && r == Result::<(), AuthError>::Err(
                AuthError::InternalFailure,
            ),
    {
        match self.find_by_id(*id) {
            Some(i) => {
                proof {
                    Self::lemma_map_index(self.users@, i as int);
                }
                let u = &self.users[i];
                let updated = User {
                    id: u.id,
                    name: u.name.clone(),
                    email: u.email.clone(),
                    password_hash: String::from_str(password_hash),
                    phone: match &u.phone {
                        Some(p) => Some(p.clone()),
                        None => None,
                    },
                    is_confirmed: u.is_confirmed,
                };
                proof {
                    Self::lemma_map_update(self.users@, i as int, updated);
                    Self::lemma_emails_unique_update(self.users@, i as int, updated);
                }
                self.users[i] = updated;
                Ok(())
            },
            None => Err(AuthError::InternalFailure),
        }
    }

    /// Replaces email and name together, as a redeemed account update does.
    ///
    /// Fails with a conflict when another account already uses the new email.
    pub fn update_user_email_and_name(&mut self, id: &i32, name: &str, email: &str) -> (r: Result<
        (),
        AuthError,
    >)
        requires
            old(self).wf(),
        ensures
            final(self).wf(),
            r is Ok <==> (old(self).contents().contains_key(*id as int) && !old(
                self,
            ).spec_email_conflict(*id as int, email@)),
            r is Ok ==> final(self).contents() == old(self).contents().insert(
                *id as int,
                UserV { name: name@, email: email@, ..old(self).contents()[*id as int] },
            ),
            r is Err ==> *final(self) == *old(self),
            match r {
                Ok(_) => true,
                Err(e) => {
                    &&& (e == AuthError::InternalFailure <==> !old(
                        self,
                    ).contents().contains_key(*id as int))
                    &&& (e == AuthError::ConflictFailure <==> (old(
                        self,
                    ).contents().contains_key(*id as int) && old(self).spec_email_conflict(
                        *id as int,
                        email@,
                    )))
                },
            },
    {
        match self.find_by_id(*id) {
            Some(i) => {
                proof {
                    Self::lemma_map_index(self.users@, i as int);
                }
                let same_email = str_eq(self.users[i].email.as_str(), email);
                if !same_email && self.email_taken(email) {
                    proof {
                        let owner = choose|uid: int|
                            self.contents().contains_key(uid)
                                && #[trigger] self.contents()[uid].email == email@;
                        assert(owner == self.spec_id_for_email(email@));
                        assert(self.contents()[*id as int].email != email@);
                        assert(self.spec_email_conflict(*id as int, email@));
                    }
                    return Err(AuthError::ConflictFailure);
                }
                proof {
                    if same_email {
                        self.lemma_id_for_email(*id as int);
                        assert(!self.spec_email_conflict(*id as int, email@));
                    }
                }
                let u = &self.users[i];
                let updated = User {
                    id: u.id,
                    name: String::from_str(name),
                    email: String::from_str(email),
                    password_hash: u.password_hash.clone(),
                    phone: match &u.phone {
                        Some(p) => Some(p.clone()),
                        None => None,
                    },
                    is_confirmed: u.is_confirmed,
                };
                proof {
                    assert forall|j: int|
                        0 <= j < self.users@.len() && j != i as int implies self.users@[j].email@
                        != email@ by {
                        Self::lemma_map_index(self.users@, j);
                        if self.users@[j].email@ == email@ {
                            assert(self.contents()[self.users@[j].id as int].email == email@);
                            assert(self.spec_email_taken(email@));
                            assert(self.users@[j].email@ != self.users@[i as int].email@);
                        }
                    }
                    Self::lemma_map_update(self.users@, i as int, updated);
                    Self::lemma_emails_unique_update(self.users@, i as int, updated);
                }
                self.users[i] = updated;
                Ok(())
            },
            None => Err(AuthError::InternalFailure),
        }
    }

    /// Replaces the email alone.
    ///
    /// Fails with a conflict when another account already uses the new email.
    pub fn update_user_email(&mut self, id: &i32, email: &str) -> (r: Result<(), AuthError>)
        requires
            old(self).wf(),
        ensures
            final(self).wf(),
            r is Ok <==> (old(self).contents().contains_key(*id as int) && !old(
                self,
            ).spec_email_conflict(*id as int, email@)),
            r is Ok ==> final(self).contents() == old(self).contents().insert(
                *id as int,
                UserV { email: email@, ..old(self).contents()[*id as int] },
            ),
            r is Err ==> *final(self) == *old(self),
            match r {
                Ok(_) => true,
                Err(e) => {
                    &&& (e == AuthError::InternalFailure <==> !old(
                        self,
                    ).contents().contains_key(*id as int))
                    &&& (e == AuthError::ConflictFailure <==> (old(
                        self,
                    ).contents().contains_key(*id as int) && old(self).spec_email_conflict(
                        *id as int,
                        email@,
                    )))
                },
            },
    {
        match self.find_by_id(*id) {
            Some(i) => {
                proof {
                    Self::lemma_map_index(self.users@, i as int);
                }
                let same_email = str_eq(self.users[i].email.as_str(), email);
                if !same_email && self.email_taken(email) {
                    proof {
                        let owner = choose|uid: int|
                            self.contents().contains_key(uid)
                                && #[trigger] self.contents()[uid].email == email@;
                        assert(owner == self.spec_id_for_email(email@));
                        assert(self.contents()[*id as int].email != email@);
                        assert(self.spec_email_conflict(*id as int, email@));
                    }
                    return Err(AuthError::ConflictFailure);
                }
                proof {
                    if same_email {
                        self.lemma_id_for_email(*id as int);
                        assert(!self.spec_email_conflict(*id as int, email@));
                    }
                }
                let u = &self.users[i];
                let updated = User {
                    id: u.id,
                    name: u.name.clone(),
                    email: String::from_str(email),
                    password_hash: u.password_hash.clone(),
                    phone: match &u.phone {
                        Some(p) => Some(p.clone()),
                        None => None,
                    },
                    is_confirmed: u.is_confirmed,
                };
                proof {
                    assert forall|j: int|
                        0 <= j < self.users@.len() && j != i as int implies self.users@[j].email@
                        != email@ by {
                        Self::lemma_map_index(self.users@, j);
                        if self.users@[j].email@ == email@ {
                            assert(self.contents()[self.users@[j].id as int].email == email@);
                            assert(self.spec_email_taken(email@));
                            assert(self.users@[j].email@ != self.users@[i as int].email@);
                        }
                    }
                    Self::lemma_map_update(self.users@, i as int, updated);
                    Self::lemma_emails_unique_update(self.users@, i as int, updated);
                }
                self.users[i] = updated;
                Ok(())
            },
            None => Err(AuthError::InternalFailure),
        }
    }

    /// Replaces the non-sensitive fields name and phone.
    pub fn update_non_sensitive_user_fields(&mut self, id: &i32, name: &str, phone: Option<&str>)
        -> (r: Result<(), AuthError>)
        requires
            old(self).wf(),
        ensures
            final(self).wf(),
            r is Ok <==> old(self).contents().contains_key(*id as int),
            r is Ok ==> final(self).contents() == old(self).contents().insert(
                *id as int,
                UserV {
                    name: name@,
                    phone: match phone {
                        Some(p) => Some(p@),
                        None => None,
                    },
                    ..old(self).contents()[*id as int]
                },
            ),
            r is Err ==> *final(self) == *old(self) && r == Result::<(), AuthError>::Err(
                AuthError::InternalFailure,
            ),
    {
        match self.find_by_id(*id) {
            Some(i) => {
                proof {
                    Self::lemma_map_index(self.users@, i as int);
                }
                let u = &self.users[i];
                let updated = User {
                    id: u.id,
                    name: String::from_str(name),
                    email: u.email.clone(),
                    password_hash: u.password_hash.clone(),
                    phone: match phone {
                        Some(p) => Some(String::from_str(p)),
                        None => None,
                    },
                    is_confirmed: u.is_confirmed,
                };
                proof {
                    Self::lemma_map_update(self.users@, i as int, updated);
                    Self::lemma_emails_unique_update(self.users@, i as int, updated);
                }
                self.users[i] = updated;
                Ok(())
            },
            None => Err(AuthError::InternalFailure),
        }
    }

    /// Removes the account row.
    pub fn delete_user_by_id(&mut self, id: &i32) -> (r: Result<(), AuthError>)
        requires
            old(self).wf(),
        ensures
            final(self).wf(),
            r is Ok <==> old(self).contents().contains_key(*id as int),
            r is Ok ==> final(self).contents() == old(self).contents().remove(*id as int),
            r is Err ==> *final(self) == *old(self) && r == Result::<(), AuthError>::Err(
                AuthError::InternalFailure,
            ),
    {
        match self.find_by_id(*id) {
            Some(i) => {
                proof {
                    Self::lemma_map_index(self.users@, i as int);
                    Self::lemma_map_remove(self.users@, i as int);
                }
                self.users.remove(i);
                Ok(())
            },
            None => Err(AuthError::InternalFailure),
        }
    }

    /// No two accounts share an email, so an email determines the account id.
    pub proof fn lemma_email_determines_id(self, u1: int, u2: int)
        requires
            self.wf(),
            self.contents().contains_key(u1),
            self.contents().contains_key(u2),
            self.contents()[u1].email == self.contents()[u2].email,
        ensures
            u1 == u2,
    {
        Self::lemma_map_contains(self.users@, u1);
        Self::lemma_map_contains(self.users@, u2);
        let i1 = choose|i: int| 0 <= i < self.users@.len() && self.users@[i].id == u1;
        let i2 = choose|i: int| 0 <= i < self.users@.len() && self.users@[i].id == u2;
        Self::lemma_map_index(self.users@, i1);
        Self::lemma_map_index(self.users@, i2);
        if i1 != i2 {
            assert(self.users@[i1].email@ != self.users@[i2].email@);
        }
    }

    /// The account an email resolves to is the account that owns it.
    pub proof fn lemma_id_for_email(self, id: int)
        requires
            self.wf(),
            self.contents().contains_key(id),
        ensures
            self.spec_id_for_email(self.contents()[id].email) == id,
    {
        let email = self.contents()[id].email;
        assert(self.spec_email_taken(email));
        let owner = choose|uid: int|
            self.contents().contains_key(uid) && #[trigger] self.contents()[uid].email == email;
        self.lemma_email_determines_id(owner, id);
    }

    proof fn lemma_emails_unique_update(s: Seq<User>, i: int, u: User)
        requires
            emails_unique(s),
            0 <= i < s.len(),
            forall|j: int| 0 <= j < s.len() && j != i ==> s[j].email@ != u.email@,
        ensures
            emails_unique(s.update(i, u)),
    {
    }
}

} // verus!
