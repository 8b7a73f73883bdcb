//! The token store: a key/value store with a per-key time-to-live.
//!
//! This is the single source of truth for whether a refresh credential,
//! one-time code, or password-reset code is still live. Its contents are
//! modelled as a map from key to value and absolute expiry time; an entry is
//! live at time `now` exactly when its expiry lies strictly in the future.

use vstd::prelude::*;

use crate::errors::AuthError;
use crate::numbers::dec_digits;
use crate::strutil::str_eq;

verus! {

pub struct StoreEntry {
    pub key: String,
    pub value: String,
    pub expires_at: u64,
}

/// A TTL-capable key/value store holding refresh credentials, one-time codes
/// and password-reset codes.
pub struct TokenStore {
    entries: Vec<StoreEntry>,
}

pub open spec fn keys_unique(s: Seq<StoreEntry>) -> bool {
    forall|i: int, j: int| 0 <= i < j < s.len() ==> s[i].key@ != s[j].key@
}

impl TokenStore {
    spec fn entries_map(s: Seq<StoreEntry>) -> Map<Seq<char>, (Seq<char>, int)>
        decreases s.len(),
    {
        if s.len() == 0 {
            Map::empty()
        } else {
            Self::entries_map(s.drop_last()).insert(
                s.last().key@,
                (s.last().value@, s.last().expires_at as int),
            )
        }
    }

    /// The store contents: each key maps to its value and absolute expiry.
    pub closed spec fn contents(self) -> Map<Seq<char>, (Seq<char>, int)> {
        Self::entries_map(self.entries@)
    }

    pub closed spec fn wf(self) -> bool {
        keys_unique(self.entries@)
    }

    /// The value a lookup at time `now` yields: present and unexpired, or nothing.
    pub open spec fn spec_live_value(self, key: Seq<char>, now: int) -> Option<Seq<char>> {
        if self.contents().contains_key(key) && self.contents()[key].1 > now {
            Some(self.contents()[key].0)
        } else {
            None
        }
    }

    proof fn lemma_map_contains(s: Seq<StoreEntry>, k: Seq<char>)
        ensures
            Self::entries_map(s).contains_key(k) <==> exists|i: int|
                0 <= i < s.len() && s[i].key@ == k,
        decreases s.len(),
    {
        if s.len() > 0 {
            let sd = s.drop_last();
            Self::lemma_map_contains(sd, k);
            if s.last().key@ == k {
                assert(s[s.len() - 1].key@ == k);
            } else {
                if exists|i: int| 0 <= i < s.len() && s[i].key@ == k {
                    let i = choose|i: int| 0 <= i < s.len() && s[i].key@ == k;
                    assert(sd[i] == s[i]);
                }
                if Self::entries_map(sd).contains_key(k) {
                    let i = choose|i: int| 0 <= i < sd.len() && sd[i].key@ == k;
                    assert(s[i] == sd[i]);
                }
            }
        }
    }

    proof fn lemma_map_index(s: Seq<StoreEntry>, i: int)
        requires
            keys_unique(s),
            0 <= i < s.len(),
        ensures
            Self::entries_map(s).contains_key(s[i].key@),
            Self::entries_map(s)[s[i].key@] == (s[i].value@, s[i].expires_at as int),
        decreases s.len(),
    {
        let sd = s.drop_last();
        if i < s.len() - 1 {
            assert(keys_unique(sd));
            assert(sd[i] == s[i]);
            Self::lemma_map_index(sd, i);
            assert(s.last().key@ != s[i].key@);
        }
    }

    proof fn lemma_map_remove(s: Seq<StoreEntry>, i: int)
        requires
            keys_unique(s),
            0 <= i < s.len(),
        ensures
            keys_unique(s.remove(i)),
            Self::entries_map(s.remove(i)) =~= Self::entries_map(s).remove(s[i].key@),
        decreases s.len(),
    {
        let k = s[i].key@;
        let sd = s.drop_last();
        assert(keys_unique(sd));
        if i == s.len() - 1 {
            assert(s.remove(i) =~= sd);
            Self::lemma_map_contains(sd, k);
            assert(!Self::entries_map(sd).contains_key(k));
            assert(Self::entries_map(sd) =~= Self::entries_map(s).remove(k));
        } else {
            assert(sd[i] == s[i]);
            Self::lemma_map_remove(sd, i);
            assert(s.remove(i).drop_last() =~= sd.remove(i));
            assert(s.remove(i).last() == s.last());
            assert(s.last().key@ != k);
            assert(Self::entries_map(s.remove(i)) =~= Self::entries_map(sd.remove(i)).insert(
                s.last().key@,
                (s.last().value@, s.last().expires_at as int),
            ));
            assert(Self::entries_map(sd).remove(k).insert(
                s.last().key@,
                (s.last().value@, s.last().expires_at as int),
            ) =~= Self::entries_map(s).remove(k));
        }
    }

    /// An empty store.
    pub fn new() -> (store: TokenStore)
        ensures
            store.wf(),
            store.contents() == Map::<Seq<char>, (Seq<char>, int)>::empty(),
    {
        TokenStore { entries: Vec::new() }
    }

    /// Deletes the entry under `key`, if any.
    pub fn remove_token(&mut self, key: &str)
        requires
            old(self).wf(),
        ensures
            final(self).wf(),
            final(self).contents() == old(self).contents().remove(key@),
    {
        let n = self.entries.len();
        let mut i: usize = 0;
        while i < n
            invariant
                self == old(self),
                self.wf(),
                n == self.entries@.len(),
                0 <= i <= n,
                forall|j: int| 0 <= j < i ==> self.entries@[j].key@ != key@,
            decreases n - i,
        {
            if str_eq(self.entries[i].key.as_str(), key) {
                proof {
                    Self::lemma_map_remove(self.entries@, i as int);
                }
                self.entries.remove(i);
                return ;
            }
            i = i + 1;
        }
        proof {
            Self::lemma_map_contains(self.entries@, key@);
            assert(!self.contents().contains_key(key@));
            assert(self.contents().remove(key@) =~= self.contents());
        }
    }

    /// Installs `value` under `key` with a time-to-live of
    /// `expiration_seconds`, replacing any previous entry under that key.
    pub fn set_token(&mut self, key: &str, value: &str, expiration_seconds: u64, now: u64)
        requires
            old(self).wf(),
            now + expiration_seconds <= u64::MAX,
        ensures
            final(self).wf(),
            final(self).contents() == old(self).contents().insert(
                key@,
                (value@, now + expiration_seconds),
            ),
    {
        self.remove_token(key);
        let entry = StoreEntry {
            key: String::from_str(key),
            value: String::from_str(value),
            expires_at: now + expiration_seconds,
        };
        let ghost pre = self.entries@;
        proof {
            Self::lemma_map_contains(pre, key@);
            assert(!Self::entries_map(pre).contains_key(key@));
        }
        self.entries.push(entry);
        proof {
            assert(self.entries@.drop_last() =~= pre);
            assert(forall|j: int| 0 <= j < pre.len() ==> pre[j].key@ != key@) by {
                if exists|j: int| 0 <= j < pre.len() && pre[j].key@ == key@ {
                    let j = choose|j: int| 0 <= j < pre.len() && pre[j].key@ == key@;
                    Self::lemma_map_contains(pre, key@);
                }
            }
            assert(self.wf());
            assert(self.contents() =~= old(self).contents().insert(
                key@,
                (value@, (now + expiration_seconds) as int),
            ));
        }
    }

    /// Looks `key` up at time `now`; an expired or missing entry yields nothing.
    pub fn get_token(&self, key: &str, now: u64) -> (r: Option<String>)
        requires
            self.wf(),
        ensures
            match r {
                Some(v) => self.spec_live_value(key@, now as int) == Some(v@),
                None => self.spec_live_value(key@, now as int) is None,
            },
    {
        let n = self.entries.len();
        let mut i: usize = 0;
        while i < n
            invariant
                self.wf(),
                n == self.entries@.len(),
                0 <= i <= n,
                forall|j: int| 0 <= j < i ==> self.entries@[j].key@ != key@,
            decreases n - i,
    {
            if str_eq(self.entries[i].key.as_str(), key) {
                proof {
                    Self::lemma_map_index(self.entries@, i as int);
                }
                if self.entries[i].expires_at > now {
                    return Some(self.entries[i].value.clone());
                } else {
                    return None;
                }
            }
            i = i + 1;
        }
        proof {
            Self::lemma_map_contains(self.entries@, key@);
        }
        None
    }

    /// Deletes every entry whose value is `value`, keeping all others
    /// untouched. Used to invalidate a deleted account's credentials, which
    /// all resolve to the account id.
    pub fn remove_tokens_with_value(&mut self, value: &str)
        requires
            old(self).wf(),
        ensures
            final(self).wf(),
            forall|k: Seq<char>|
                #[trigger] final(self).contents().contains_key(k) <==> (old(
                    self,
                ).contents().contains_key(k) && old(self).contents()[k].0 != value@),
            forall|k: Seq<char>|
                #[trigger] final(self).contents().contains_key(k) ==> final(self).contents()[k]
                    == old(self).contents()[k],
    {
        let mut i: usize = 0;
        while i < self.entries.len()
            invariant
                self.wf(),
                0 <= i <= self.entries@.len(),
                forall|j: int| 0 <= j < i ==> #[trigger] self.entries@[j].value@ != value@,
                forall|k: Seq<char>|
                    #[trigger] self.contents().contains_key(k) ==> old(
                        self,
                    ).contents().contains_key(k) && self.contents()[k] == old(self).contents()[k],
                forall|k: Seq<char>|
                    (#[trigger] old(self).contents().contains_key(k) && old(
                        self,
                    ).contents()[k].0 != value@) ==> self.contents().contains_key(k),
            decreases self.entries@.len() - i,
        {
            if str_eq(self.entries[i].value.as_str(), value) {
                let ghost pre = *self;
                let ghost removed_key = self.entries@[i as int].key@;
                proof {
                    Self::lemma_map_index(self.entries@, i as int);
                    Self::lemma_map_remove(self.entries@, i as int);
                }
                self.entries.remove(i);
                proof {
                    assert(pre.contents()[removed_key].0 == value@);
                    assert(self.contents() =~= pre.contents().remove(removed_key));
                    assert forall|k: Seq<char>|
                        #[trigger] self.contents().contains_key(k) implies old(
                        self,
                    ).contents().contains_key(k) && self.contents()[k] == old(
                        self,
                    ).contents()[k] by {
                        assert(pre.contents().contains_key(k));
                    }
                    assert forall|k: Seq<char>|
                        (#[trigger] old(self).contents().contains_key(k) && old(
                            self,
                        ).contents()[k].0 != value@) implies self.contents().contains_key(k) by {
                        assert(pre.contents().contains_key(k));
                        assert(k != removed_key);
                    }
                }
            } else {
                i = i + 1;
            }
        }
        proof {
            assert forall|k: Seq<char>| #[trigger] self.contents().contains_key(k) implies old(
                self,
            ).contents().contains_key(k) && old(self).contents()[k].0 != value@ by {
                Self::lemma_map_contains(self.entries@, k);
                let j = choose|j: int| 0 <= j < self.entries@.len() && self.entries@[j].key@ == k;
                Self::lemma_map_index(self.entries@, j);
            }
        }
    }

    /// Law: an entry installed at `now_issued` with time-to-live `ttl` no
    /// longer resolves once `ttl` seconds have elapsed.
    pub proof fn lemma_ttl_elapsed(self, key: Seq<char>, now_issued: int, ttl: int, now: int)
        requires
            self.contents().contains_key(key),
            self.contents()[key].1 == now_issued + ttl,
            now >= now_issued + ttl,
        ensures
            self.spec_live_value(key, now) is None,
    {
    }

    /// Checks that `key` is live at `now` and resolves to the decimal
    /// rendering of `id`; anything else is an authentication failure.
    pub fn verify_token(&self, key: &str, id: i32, now: u64) -> (r: Result<(), AuthError>)
        requires
            self.wf(),
            id >= 0,
        ensures
            r is Ok <==> self.spec_live_value(key@, now as int) == Some(dec_digits(id as int)),
            r is Err ==> r == Result::<(), AuthError>::Err(AuthError::AuthenticationFailure),
    {
        let token = self.get_token(key, now);
        match token {
            Some(token_value) => {
                let expected = crate::numbers::format_u64(id as u64);
                if str_eq(token_value.as_str(), expected.as_str()) {
                    Ok(())
                } else {
                    Err(AuthError::AuthenticationFailure)
                }
            },
            None => Err(AuthError::AuthenticationFailure),
        }
    }
}

} // verus!
