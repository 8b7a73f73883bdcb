//! The shared state the protocols act on: the token store, the user rows,
//! and the server-held signing secret.

use vstd::prelude::*;

use crate::store::TokenStore;
use crate::users::UserTable;

verus! {

/// The backend state behind all authentication endpoints.
pub struct AuthState {
    /// The TTL key/value store: the only mutable state shared across
    /// concurrent requests.
    pub store: TokenStore,
    /// The persisted account rows.
    pub users: UserTable,
    /// The access-token signing secret.
    pub secret: String,
}

impl AuthState {
    pub open spec fn wf(self) -> bool {
        self.store.wf() && self.users.wf()
    }

    /// A fresh state with no tokens and no accounts.
    pub fn new(secret: String) -> (state: AuthState)
        ensures
            state.wf(),
            state.store.contents() == Map::<Seq<char>, (Seq<char>, int)>::empty(),
            state.users.contents() == Map::<int, crate::users::UserV>::empty(),
            state.secret == secret,
    {
        AuthState { store: TokenStore::new(), users: UserTable::new(), secret }
    }
}

} // verus!
