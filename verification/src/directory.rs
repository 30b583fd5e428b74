//! The identity directory: maps a username to its stable user identity, and
//! a user identity to its registered credentials.
//!
//! The directory is modelled by two mathematical maps, `names_map` (username
//! to identity) and `creds_map` (identity to credential sequence); every
//! operation states exactly how it reads or rewrites them.

use vstd::prelude::*;

use webauthn_rs::prelude::Passkey;

verus! {

/// One username bound to its stable user identity.
pub struct NameBinding {
    pub username: String,
    pub user_id: u128,
}

/// The credentials registered to one user identity.
pub struct CredentialSet {
    pub user_id: u128,
    pub passkeys: Vec<Passkey>,
}

/// The identity directory.  Usernames are unique among `names`, and user
/// identities are unique among `creds`.
pub struct Directory {
    names: Vec<NameBinding>,
    creds: Vec<CredentialSet>,
}

/// The credentials map after one `put_credential`: the new credential joins
/// the identity's set, or becomes its first member.
pub open spec fn creds_after_put(
    m: Map<u128, Seq<Passkey>>,
    user_id: u128,
    passkey: Passkey,
) -> Map<u128, Seq<Passkey>> {
    m.insert(
        user_id,
        if m.contains_key(user_id) {
            m[user_id].push(passkey)
        } else {
            seq![passkey]
        },
    )
}

impl Directory {
    /// Well-formedness: both key columns are free of duplicates.
    pub closed spec fn wf(self) -> bool {
        &&& forall|i: int, j: int|
            0 <= i < j < self.names@.len() ==> self.names@[i].username@ != self.names@[j].username@
        &&& forall|i: int, j: int|
            0 <= i < j < self.creds@.len() ==> self.creds@[i].user_id != self.creds@[j].user_id
    }

    /// The username-to-identity map this directory represents.
    pub closed spec fn names_map(self) -> Map<Seq<char>, u128> {
        Map::new(
            |name: Seq<char>|
                exists|i: int| 0 <= i < self.names@.len() && self.names@[i].username@ == name,
            |name: Seq<char>|
                {
                    let i = choose|i: int|
                        0 <= i < self.names@.len() && self.names@[i].username@ == name;
                    self.names@[i].user_id
                },
        )
    }

    /// The identity-to-credentials map this directory represents.
    pub closed spec fn creds_map(self) -> Map<u128, Seq<Passkey>> {
        Map::new(
            |user_id: u128|
                exists|i: int| 0 <= i < self.creds@.len() && self.creds@[i].user_id == user_id,
            |user_id: u128|
                {
                    let i = choose|i: int|
                        0 <= i < self.creds@.len() && self.creds@[i].user_id == user_id;
                    self.creds@[i].passkeys@
                },
        )
    }

    /// The username bindings as stored, oldest first.
    pub closed spec fn bindings(self) -> Seq<NameBinding> {
        self.names@
    }

    /// The credential sets as stored, oldest first.
    pub closed spec fn credential_entries(self) -> Seq<CredentialSet> {
        self.creds@
    }

    /// The stored username bindings, for persisting the directory outside
    /// the core.
    pub fn name_bindings(&self) -> (r: &Vec<NameBinding>)
        ensures
            r@ == self.bindings(),
    {
        &self.names
    }

    /// The stored credential sets, for persisting the directory outside the
    /// core.
    pub fn credential_sets(&self) -> (r: &Vec<CredentialSet>)
        ensures
            r@ == self.credential_entries(),
    {
        &self.creds
    }

    /// An empty directory: no identities, no credentials.
    pub fn new() -> (d: Directory)
        ensures
            d.wf(),
            d.names_map() == Map::<Seq<char>, u128>::empty(),
            d.creds_map() == Map::<u128, Seq<Passkey>>::empty(),
    {
        let d = Directory { names: Vec::new(), creds: Vec::new() };
        proof {
            assert(d.names_map() =~= Map::<Seq<char>, u128>::empty());
            assert(d.creds_map() =~= Map::<u128, Seq<Passkey>>::empty());
        }
        d
    }

    /// The identity bound to a username, if the directory knows it.
    pub fn lookup_user_id(&self, username: &String) -> (r: Option<u128>)
        requires
            self.wf(),
        ensures
            match r {
                Some(user_id) => self.names_map().contains_key(username@)
                    && self.names_map()[username@] == user_id,
                None => !self.names_map().contains_key(username@),
            },
    {
        let n = self.names.len();
        let mut i: usize = 0;
        while i < n
            invariant
                self.wf(),
                n == self.names@.len(),
                i <= n,
                forall|k: int| 0 <= k < i ==> self.names@[k].username@ != username@,
            decreases n - i,
        {
            if self.names[i].username == *username {
                proof {
                    lemma_name_witness(*self, i as int, username@);
                }
                return Some(self.names[i].user_id);
            }
            i += 1;
        }
        proof {
            if self.names_map().contains_key(username@) {
                let w = choose|w: int|
                    0 <= w < self.names@.len() && self.names@[w].username@ == username@;
                assert(false);
            }
        }
        None
    }

    /// Binds a username to a user identity, replacing any previous binding
    /// of that username; credentials are untouched.
    pub fn bind_username(&mut self, username: String, user_id: u128)
        requires
            old(self).wf(),
        ensures
            final(self).wf(),
            final(self).names_map() == old(self).names_map().insert(username@, user_id),
            final(self).creds_map() == old(self).creds_map(),
    {
        let n = self.names.len();
        let mut i: usize = 0;
        while i < n
            invariant
                *self == *old(self),
                old(self).wf(),
                n == self.names@.len(),
                i <= n,
                forall|k: int| 0 <= k < i ==> self.names@[k].username@ != username@,
            decreases n - i,
        {
            if self.names[i].username == username {
                let _previous = self.names.remove(i);
                self.names.insert(i, NameBinding { username, user_id });
                proof {
                    assert(self.names@ =~= old(self).names@.update(
                        i as int,
                        self.names@[i as int],
                    ));
                    lemma_names_update(*old(self), *self, i as int, user_id);
                }
                return;
            }
            i += 1;
        }
        self.names.push(NameBinding { username, user_id });
        proof {
            lemma_names_push(*old(self), *self, user_id);
        }
    }

    /// The credentials registered to a user identity, if any entry exists.
    pub fn credentials_for<'a>(&'a self, user_id: u128) -> (r: Option<&'a Vec<Passkey>>)
        requires
            self.wf(),
        ensures
            match r {
                Some(passkeys) => self.creds_map().contains_key(user_id)
                    && passkeys@ == self.creds_map()[user_id],
                None => !self.creds_map().contains_key(user_id),
            },
    {
        let n = self.creds.len();
        let mut i: usize = 0;
        while i < n
            invariant
                self.wf(),
                n == self.creds@.len(),
                i <= n,
                forall|k: int| 0 <= k < i ==> self.creds@[k].user_id != user_id,
            decreases n - i,
        {
            if self.creds[i].user_id == user_id {
                proof {
                    lemma_cred_witness(*self, i as int, user_id);
                }
                return Some(&self.creds[i].passkeys);
            }
            i += 1;
        }
        proof {
            if self.creds_map().contains_key(user_id) {
                let w = choose|w: int|
                    0 <= w < self.creds@.len() && self.creds@[w].user_id == user_id;
                assert(false);
            }
        }
        None
    }

    /// Adds one credential under a user identity: appended to the identity's
    /// set when one exists, else stored as its first credential.
    pub fn put_credential(&mut self, user_id: u128, passkey: Passkey)
        requires
            old(self).wf(),
        ensures
            final(self).wf(),
            final(self).names_map() == old(self).names_map(),
            final(self).creds_map() == creds_after_put(old(self).creds_map(), user_id, passkey),
    {
        let n = self.creds.len();
        let mut i: usize = 0;
        while i < n
            invariant
                *self == *old(self),
                old(self).wf(),
                n == self.creds@.len(),
                i <= n,
                forall|k: int| 0 <= k < i ==> self.creds@[k].user_id != user_id,
            decreases n - i,
        {
            if self.creds[i].user_id == user_id {
                proof {
                    lemma_cred_witness(*old(self), i as int, user_id);
                }
                let mut entry = self.creds.remove(i);
                entry.passkeys.push(passkey);
                self.creds.insert(i, entry);
                proof {
                    assert(self.creds@ =~= old(self).creds@.update(
                        i as int,
                        self.creds@[i as int],
                    ));
                    lemma_creds_update(*old(self), *self, i as int, user_id, passkey);
                }
                return;
            }
            i += 1;
        }
        proof {
            if old(self).creds_map().contains_key(user_id) {
                let w = choose|w: int|
                    0 <= w < self.creds@.len() && self.creds@[w].user_id == user_id;
                assert(false);
            }
        }
        let mut passkeys: Vec<Passkey> = Vec::new();
        passkeys.push(passkey);
        proof {
            assert(passkeys@ =~= seq![passkey]);
        }
        self.creds.push(CredentialSet { user_id, passkeys });
        proof {
            lemma_creds_push(*old(self), *self, user_id);
        }
    }

    /// Removes and returns the credentials of a user identity, leaving the
    /// username bindings untouched.
    pub fn take_credentials(&mut self, user_id: u128) -> (r: Option<Vec<Passkey>>)
        requires
            old(self).wf(),
        ensures
            final(self).wf(),
            final(self).names_map() == old(self).names_map(),
            match r {
                Some(passkeys) => old(self).creds_map().contains_key(user_id)
                    && passkeys@ == old(self).creds_map()[user_id]
                    && final(self).creds_map() == old(self).creds_map().remove(user_id),
                None => !old(self).creds_map().contains_key(user_id)
                    && final(self).creds_map() == old(self).creds_map(),
            },
    {
        let n = self.creds.len();
        let mut i: usize = 0;
        while i < n
            invariant
                *self == *old(self),
                old(self).wf(),
                n == self.creds@.len(),
                i <= n,
                forall|k: int| 0 <= k < i ==> self.creds@[k].user_id != user_id,
            decreases n - i,
        {
            if self.creds[i].user_id == user_id {
                proof {
                    lemma_cred_witness(*old(self), i as int, user_id);
                }
                let entry = self.creds.remove(i);
                proof {
                    lemma_creds_remove(*old(self), *self, i as int, user_id);
                }
                return Some(entry.passkeys);
            }
            i += 1;
        }
        proof {
            if old(self).creds_map().contains_key(user_id) {
                let w = choose|w: int|
                    0 <= w < self.creds@.len() && self.creds@[w].user_id == user_id;
                assert(false);
            }
        }
        None
    }

    /// Stores exactly the given credentials under a user identity,
    /// replacing whatever set was there.
    pub fn set_credentials(&mut self, user_id: u128, passkeys: Vec<Passkey>)
        requires
            old(self).wf(),
        ensures
            final(self).wf(),
            final(self).names_map() == old(self).names_map(),
            final(self).creds_map() == old(self).creds_map().insert(user_id, passkeys@),
    {
        let _previous = self.take_credentials(user_id);
        let ghost mid = *self;
        proof {
            assert forall|k: int| 0 <= k < mid.creds@.len() implies mid.creds@[k].user_id
                != user_id by {
                if mid.creds@[k].user_id == user_id {
                    assert(exists|w: int|
                        0 <= w < mid.creds@.len() && mid.creds@[w].user_id == user_id);
                    assert(mid.creds_map().contains_key(user_id));
                }
            }
        }
        self.creds.push(CredentialSet { user_id, passkeys });
        proof {
            lemma_creds_push(mid, *self, user_id);
            assert(self.creds_map() =~= old(self).creds_map().insert(user_id, passkeys@));
        }
    }
}

/// In a well-formed directory, an index whose username matches is the one
/// the maps' witness picks.
proof fn lemma_name_witness(d: Directory, i: int, name: Seq<char>)
    requires
        d.wf(),
        0 <= i < d.names@.len(),
        d.names@[i].username@ == name,
    ensures
        d.names_map().contains_key(name),
        d.names_map()[name] == d.names@[i].user_id,
{
    assert(d.names_map().contains_key(name));
    let w = choose|w: int| 0 <= w < d.names@.len() && d.names@[w].username@ == name;
    if w < i {
        assert(d.names@[w].username@ != d.names@[i].username@);
    } else if i < w {
        assert(d.names@[i].username@ != d.names@[w].username@);
    }
}

/// In a well-formed directory, an index whose user identity matches is the
/// one the maps' witness picks.
proof fn lemma_cred_witness(d: Directory, i: int, user_id: u128)
    requires
        d.wf(),
        0 <= i < d.creds@.len(),
        d.creds@[i].user_id == user_id,
    ensures
        d.creds_map().contains_key(user_id),
        d.creds_map()[user_id] == d.creds@[i].passkeys@,
{
    assert(d.creds_map().contains_key(user_id));
    let w = choose|w: int| 0 <= w < d.creds@.len() && d.creds@[w].user_id == user_id;
    if w < i {
        assert(d.creds@[w].user_id != d.creds@[i].user_id);
    } else if i < w {
        assert(d.creds@[i].user_id != d.creds@[w].user_id);
    }
}

proof fn lemma_names_update(prior: Directory, now: Directory, i: int, user_id: u128)
    requires
        prior.wf(),
        0 <= i < prior.names@.len(),
        now.names@ == prior.names@.update(i, now.names@[i]),
        now.names@[i].username@ == prior.names@[i].username@,
        now.names@[i].user_id == user_id,
        now.creds@ == prior.creds@,
    ensures
        now.wf(),
        now.names_map() == prior.names_map().insert(prior.names@[i].username@, user_id),
        now.creds_map() == prior.creds_map(),
{
    let name = prior.names@[i].username@;
    assert forall|a: int, b: int| 0 <= a < b < now.names@.len() implies now.names@[a].username@
        != now.names@[b].username@ by {
        assert(now.names@[a].username@ == prior.names@[a].username@);
        assert(now.names@[b].username@ == prior.names@[b].username@);
        assert(prior.names@[a].username@ != prior.names@[b].username@);
    }
    assert(now.names_map() =~= prior.names_map().insert(name, user_id)) by {
        assert forall|k: Seq<char>| #[trigger] now.names_map().contains_key(k) implies prior
            .names_map().insert(name, user_id).contains_key(k) by {
            let w = choose|w: int| 0 <= w < now.names@.len() && now.names@[w].username@ == k;
            assert(prior.names@[w].username@ == k);
        }
        assert forall|k: Seq<char>| #[trigger] prior.names_map().insert(
            name,
            user_id,
        ).contains_key(k) implies now.names_map().contains_key(k) by {
            if k == name {
                assert(now.names@[i].username@ == k);
            } else {
                let w = choose|w: int|
                    0 <= w < prior.names@.len() && prior.names@[w].username@ == k;
                assert(now.names@[w].username@ == k);
            }
        }
        assert forall|k: Seq<char>| now.names_map().contains_key(k) implies #[trigger] now
            .names_map()[k] == prior.names_map().insert(name, user_id)[k] by {
            let w = choose|w: int| 0 <= w < now.names@.len() && now.names@[w].username@ == k;
            lemma_name_witness(now, w, k);
            if k == name {
                lemma_name_witness(now, i, k);
            } else {
                assert(w != i);
                assert(prior.names@[w].username@ == k);
                lemma_name_witness(prior, w, k);
            }
        }
    }
    assert(now.creds_map() =~= prior.creds_map());
}

proof fn lemma_names_push(prior: Directory, now: Directory, user_id: u128)
    requires
        prior.wf(),
        now.names@.len() == prior.names@.len() + 1,
        now.names@ == prior.names@.push(now.names@[prior.names@.len() as int]),
        forall|k: int|
            0 <= k < prior.names@.len() ==> prior.names@[k].username@ != now.names@[prior.names@.len() as int].username@,
        now.names@[prior.names@.len() as int].user_id == user_id,
        now.creds@ == prior.creds@,
    ensures
        now.wf(),
        now.names_map() == prior.names_map().insert(
            now.names@[prior.names@.len() as int].username@,
            user_id,
        ),
        now.creds_map() == prior.creds_map(),
{
    let last = prior.names@.len() as int;
    let name = now.names@[last].username@;
    assert forall|a: int, b: int| 0 <= a < b < now.names@.len() implies now.names@[a].username@
        != now.names@[b].username@ by {
        if b < last {
            assert(now.names@[a].username@ == prior.names@[a].username@);
            assert(now.names@[b].username@ == prior.names@[b].username@);
            assert(prior.names@[a].username@ != prior.names@[b].username@);
        } else {
            assert(now.names@[a].username@ == prior.names@[a].username@);
        }
    }
    assert(now.names_map() =~= prior.names_map().insert(name, user_id)) by {
        assert forall|k: Seq<char>| #[trigger] now.names_map().contains_key(k) implies prior
            .names_map().insert(name, user_id).contains_key(k) by {
            let w = choose|w: int| 0 <= w < now.names@.len() && now.names@[w].username@ == k;
            if w < last {
                assert(prior.names@[w].username@ == k);
            }
        }
        assert forall|k: Seq<char>| #[trigger] prior.names_map().insert(
            name,
            user_id,
        ).contains_key(k) implies now.names_map().contains_key(k) by {
            if k == name {
                assert(now.names@[last].username@ == k);
            } else {
                let w = choose|w: int|
                    0 <= w < prior.names@.len() && prior.names@[w].username@ == k;
                assert(now.names@[w].username@ == k);
            }
        }
        assert forall|k: Seq<char>| now.names_map().contains_key(k) implies #[trigger] now
            .names_map()[k] == prior.names_map().insert(name, user_id)[k] by {
            let w = choose|w: int| 0 <= w < now.names@.len() && now.names@[w].username@ == k;
            lemma_name_witness(now, w, k);
            if k == name {
                lemma_name_witness(now, last, k);
            } else {
                assert(w < last);
                assert(prior.names@[w].username@ == k);
                lemma_name_witness(prior, w, k);
            }
        }
    }
    assert(now.creds_map() =~= prior.creds_map());
}

proof fn lemma_creds_update(prior: Directory, now: Directory, i: int, user_id: u128, passkey: Passkey)
    requires
        prior.wf(),
        0 <= i < prior.creds@.len(),
        prior.creds@[i].user_id == user_id,
        now.creds@ == prior.creds@.update(i, now.creds@[i]),
        now.creds@[i].user_id == user_id,
        now.creds@[i].passkeys@ == prior.creds@[i].passkeys@.push(passkey),
        now.names@ == prior.names@,
    ensures
        now.wf(),
        now.names_map() == prior.names_map(),
        now.creds_map() == creds_after_put(prior.creds_map(), user_id, passkey),
{
    lemma_cred_witness(prior, i, user_id);
    assert forall|a: int, b: int| 0 <= a < b < now.creds@.len() implies now.creds@[a].user_id
        != now.creds@[b].user_id by {
        assert(now.creds@[a].user_id == prior.creds@[a].user_id);
        assert(now.creds@[b].user_id == prior.creds@[b].user_id);
        assert(prior.creds@[a].user_id != prior.creds@[b].user_id);
    }
    assert(now.creds_map() =~= creds_after_put(prior.creds_map(), user_id, passkey)) by {
        assert forall|k: u128| #[trigger] now.creds_map().contains_key(k) implies creds_after_put(
            prior.creds_map(),
            user_id,
            passkey,
        ).contains_key(k) by {
            let w = choose|w: int| 0 <= w < now.creds@.len() && now.creds@[w].user_id == k;
            assert(prior.creds@[w].user_id == k);
        }
        assert forall|k: u128| #[trigger] creds_after_put(
            prior.creds_map(),
            user_id,
            passkey,
        ).contains_key(k) implies now.creds_map().contains_key(k) by {
            if k == user_id {
                assert(now.creds@[i].user_id == k);
            } else {
                let w = choose|w: int| 0 <= w < prior.creds@.len() && prior.creds@[w].user_id == k;
                assert(now.creds@[w].user_id == k);
            }
        }
        assert forall|k: u128| now.creds_map().contains_key(k) implies #[trigger] now.creds_map()[k]
            == creds_after_put(prior.creds_map(), user_id, passkey)[k] by {
            let w = choose|w: int| 0 <= w < now.creds@.len() && now.creds@[w].user_id == k;
            lemma_cred_witness(now, w, k);
            if k == user_id {
                lemma_cred_witness(now, i, k);
            } else {
                assert(w != i);
                assert(prior.creds@[w].user_id == k);
                lemma_cred_witness(prior, w, k);
            }
        }
    }
    assert(now.names_map() =~= prior.names_map());
}

proof fn lemma_creds_push(prior: Directory, now: Directory, user_id: u128)
    requires
        prior.wf(),
        forall|k: int| 0 <= k < prior.creds@.len() ==> prior.creds@[k].user_id != user_id,
        now.creds@.len() == prior.creds@.len() + 1,
        now.creds@ == prior.creds@.push(now.creds@[prior.creds@.len() as int]),
        now.creds@[prior.creds@.len() as int].user_id == user_id,
        now.names@ == prior.names@,
    ensures
        now.wf(),
        now.names_map() == prior.names_map(),
        now.creds_map() == prior.creds_map().insert(
            user_id,
            now.creds@[prior.creds@.len() as int].passkeys@,
        ),
        !prior.creds_map().contains_key(user_id),
{
    let last = prior.creds@.len() as int;
    if prior.creds_map().contains_key(user_id) {
        let w = choose|w: int| 0 <= w < prior.creds@.len() && prior.creds@[w].user_id == user_id;
        assert(false);
    }
    assert forall|a: int, b: int| 0 <= a < b < now.creds@.len() implies now.creds@[a].user_id
        != now.creds@[b].user_id by {
        if b < last {
            assert(now.creds@[a].user_id == prior.creds@[a].user_id);
            assert(now.creds@[b].user_id == prior.creds@[b].user_id);
            assert(prior.creds@[a].user_id != prior.creds@[b].user_id);
        } else {
            assert(now.creds@[a].user_id == prior.creds@[a].user_id);
        }
    }
    assert(now.creds_map() =~= prior.creds_map().insert(user_id, now.creds@[last].passkeys@)) by {
        assert forall|k: u128| #[trigger] now.creds_map().contains_key(k) implies prior
            .creds_map().insert(user_id, now.creds@[last].passkeys@).contains_key(k) by {
            let w = choose|w: int| 0 <= w < now.creds@.len() && now.creds@[w].user_id == k;
            if w < last {
                assert(prior.creds@[w].user_id == k);
            }
        }
        assert forall|k: u128| #[trigger] prior.creds_map().insert(
            user_id,
            now.creds@[last].passkeys@,
        ).contains_key(k) implies now.creds_map().contains_key(k) by {
            if k == user_id {
                assert(now.creds@[last].user_id == k);
            } else {
                let w = choose|w: int| 0 <= w < prior.creds@.len() && prior.creds@[w].user_id == k;
                assert(now.creds@[w].user_id == k);
            }
        }
        assert forall|k: u128| now.creds_map().contains_key(k) implies #[trigger] now.creds_map()[k]
            == prior.creds_map().insert(user_id, now.creds@[last].passkeys@)[k] by {
            let w = choose|w: int| 0 <= w < now.creds@.len() && now.creds@[w].user_id == k;
            lemma_cred_witness(now, w, k);
            if k == user_id {
                lemma_cred_witness(now, last, k);
            } else {
                assert(w < last);
                assert(prior.creds@[w].user_id == k);
                lemma_cred_witness(prior, w, k);
            }
        }
    }
    assert(now.names_map() =~= prior.names_map());
}

proof fn lemma_creds_remove(prior: Directory, now: Directory, i: int, user_id: u128)
    requires
        prior.wf(),
        0 <= i < prior.creds@.len(),
        prior.creds@[i].user_id == user_id,
        now.creds@ == prior.creds@.remove(i),
        now.names@ == prior.names@,
    ensures
        now.wf(),
        now.names_map() == prior.names_map(),
        now.creds_map() == prior.creds_map().remove(user_id),
        prior.creds_map().contains_key(user_id),
        prior.creds_map()[user_id] == prior.creds@[i].passkeys@,
{
    lemma_cred_witness(prior, i, user_id);
    assert forall|a: int, b: int| 0 <= a < b < now.creds@.len() implies now.creds@[a].user_id
        != now.creds@[b].user_id by {
        let pa = if a < i {
            a
        } else {
            a + 1
        };
        let pb = if b < i {
            b
        } else {
            b + 1
        };
        assert(now.creds@[a] == prior.creds@[pa]);
        assert(now.creds@[b] == prior.creds@[pb]);
        assert(prior.creds@[pa].user_id != prior.creds@[pb].user_id);
    }
    assert(now.creds_map() =~= prior.creds_map().remove(user_id)) by {
        assert forall|k: u128| #[trigger] now.creds_map().contains_key(k) implies prior
            .creds_map().remove(user_id).contains_key(k) by {
            let w = choose|w: int| 0 <= w < now.creds@.len() && now.creds@[w].user_id == k;
            let pw = if w < i {
                w
            } else {
                w + 1
            };
            assert(now.creds@[w] == prior.creds@[pw]);
            assert(prior.creds@[pw].user_id == k);
            if k == user_id {
                assert(prior.creds@[pw].user_id == prior.creds@[i].user_id);
                lemma_cred_index_unique(prior, pw, i);
            }
        }
        assert forall|k: u128| #[trigger] prior.creds_map().remove(user_id).contains_key(
            k,
        ) implies now.creds_map().contains_key(k) by {
            let w = choose|w: int| 0 <= w < prior.creds@.len() && prior.creds@[w].user_id == k;
            assert(w != i);
            let nw = if w < i {
                w
            } else {
                w - 1
            };
            assert(now.creds@[nw] == prior.creds@[w]);
        }
        assert forall|k: u128| now.creds_map().contains_key(k) implies #[trigger] now.creds_map()[k]
            == prior.creds_map().remove(user_id)[k] by {
            let w = choose|w: int| 0 <= w < now.creds@.len() && now.creds@[w].user_id == k;
            lemma_cred_witness(now, w, k);
            let pw = if w < i {
                w
            } else {
                w + 1
            };
            assert(now.creds@[w] == prior.creds@[pw]);
            lemma_cred_witness(prior, pw, k);
            if k == user_id {
                lemma_cred_index_unique(prior, pw, i);
                assert(false);
            }
        }
    }
    assert(now.names_map() =~= prior.names_map());
}

/// Two indices carrying the same user identity are the same index.
proof fn lemma_cred_index_unique(d: Directory, a: int, b: int)
    requires
        d.wf(),
        0 <= a < d.creds@.len(),
        0 <= b < d.creds@.len(),
        d.creds@[a].user_id == d.creds@[b].user_id,
    ensures
        a == b,
{
    if a < b {
        assert(d.creds@[a].user_id != d.creds@[b].user_id);
    } else if b < a {
        assert(d.creds@[b].user_id != d.creds@[a].user_id);
    }
}

} // verus!
