//! The auth gate: operator credentials are stored as a salted
//! memory-hard digest and checked before a broadcast is permitted.
//! The hash itself is the outside crate's; every decision around it is
//! verified, and a failed authentication is a single indistinguishable
//! error value however it failed.

use vstd::prelude::*;
use crate::domain::bytes_eq;
use crate::ids::{fresh_u128, u128_to_hex};

verus! {

/// What the memory-hard password hash returns for a password and salt:
/// a function of its two arguments alone.
pub uninterp spec fn argon2_digest(password: Seq<u8>, salt: Seq<u8>) -> Seq<u8>;

/// Relies on argon2::Argon2::hash_password_into_with_memory (Argon2id,
/// the crate's default parameters, a 32-byte output buffer, working
/// memory supplied here): the digest is a deterministic function of
/// password and salt, and the call errors only on an out-of-range
/// password (over 2^32 - 1 bytes) or salt (outside 8..=2^32 - 1 bytes).
#[verifier::external_body]
fn hash_with_salt(password: &[u8], salt: &[u8]) -> (r: Option<Vec<u8>>)
    ensures
        r matches Some(d) ==> d@ == argon2_digest(password@, salt@),
        password@.len() <= 0xFFFF_FFFF && 8 <= salt@.len() && salt@.len() <= 0xFFFF_FFFF
            ==> r is Some,
{
    let mut out = [0u8; 32];
    let hasher = argon2::Argon2::default();
    let mut blocks = vec![argon2::Block::new(); hasher.params().block_count()];
    match hasher.hash_password_into_with_memory(password, salt, &mut out, blocks.as_mut_slice()) {
        Ok(()) => Some(out.to_vec()),
        Err(_) => None,
    }
}

/// Authentication failed.  The one variant never distinguishes an
/// unknown username from a wrong password.
#[derive(Clone, Copy, Debug, PartialEq, Eq)]
pub enum AuthError {
    InvalidCredentials,
}

/// Why an operator could not be registered.
#[derive(Clone, Copy, Debug, PartialEq, Eq)]
pub enum RegisterError {
    /// An operator with this username already exists.
    DuplicateUsername,
    /// The randomly drawn salt collided with a stored one.
    DuplicateSalt,
    /// The hashing primitive could not run.
    HashingUnavailable,
}

/// A stored operator credential: the password appears only as a salted
/// digest, never in clear form.
pub struct Credential {
    pub user_id: u128,
    pub username: Vec<u8>,
    pub salt: Vec<u8>,
    pub digest: Vec<u8>,
}

pub open spec fn has_username(us: Seq<Credential>, name: Seq<u8>) -> bool {
    exists|i: int| 0 <= i < us.len() && us[i].username@ == name
}

pub open spec fn has_salt(us: Seq<Credential>, salt: Seq<u8>) -> bool {
    exists|i: int| 0 <= i < us.len() && us[i].salt@ == salt
}

/// What checking a computed digest against a stored credential yields:
/// the operator's id exactly when a digest was computed and matches.
pub open spec fn spec_check_digest(stored: Credential, computed: Option<Seq<u8>>) -> Result<
    u128,
    AuthError,
> {
    match computed {
        Some(d) => if d == stored.digest@ {
            Ok(stored.user_id)
        } else {
            Err(AuthError::InvalidCredentials)
        },
        None => Err(AuthError::InvalidCredentials),
    }
}

/// Decide authentication from a stored credential and whatever the
/// hash call computed.
pub fn check_digest(stored: &Credential, computed: &Option<Vec<u8>>) -> (r: Result<
    u128,
    AuthError,
>)
    ensures
        r == spec_check_digest(*stored, match *computed {
            Some(d) => Some::<Seq<u8>>(d@),
            None => None::<Seq<u8>>,
        }),
{
    match computed {
        Some(d) => {
            if bytes_eq(d.as_slice(), stored.digest.as_slice()) {
                Ok(stored.user_id)
            } else {
                Err(AuthError::InvalidCredentials)
            }
        },
        None => Err(AuthError::InvalidCredentials),
    }
}

/// The operator credential store.  Usernames are unique, and no salt is
/// ever reused across operators.
pub struct CredentialStore {
    users: Vec<Credential>,
}

impl CredentialStore {
    pub closed spec fn users(&self) -> Seq<Credential> {
        self.users@
    }

    pub open spec fn wf(&self) -> bool {
        &&& forall|i: int, j: int|
            0 <= i < j < self.users().len() ==> self.users()[i].username@
                != self.users()[j].username@
        &&& forall|i: int, j: int|
            0 <= i < j < self.users().len() ==> self.users()[i].salt@ != self.users()[j].salt@
        &&& forall|i: int| 0 <= i < self.users().len() ==> (#[trigger] self.users()[i]).salt@.len() == 32
    }

    pub fn new() -> (r: CredentialStore)
        ensures
            r.wf(),
            r.users() == Seq::<Credential>::empty(),
    {
        CredentialStore { users: Vec::new() }
    }

    /// Whether some credential carries this username.
    fn contains_username(&self, name: &[u8]) -> (r: bool)
        ensures
            r == has_username(self.users(), name@),
    {
        let n = self.users.len();
        let mut i: usize = 0;
        while i < n
            invariant
                n == self.users().len(),
                i <= n,
                forall|j: int| 0 <= j < i ==> self.users()[j].username@ != name@,
            decreases n - i,
        {
            if bytes_eq(self.users[i].username.as_slice(), name) {
                return true;
            }
            i = i + 1;
        }
        false
    }

    /// Whether some credential carries this salt.
    fn contains_salt(&self, salt: &[u8]) -> (r: bool)
        ensures
            r == has_salt(self.users(), salt@),
    {
        let n = self.users.len();
        let mut i: usize = 0;
        while i < n
            invariant
                n == self.users().len(),
                i <= n,
                forall|j: int| 0 <= j < i ==> self.users()[j].salt@ != salt@,
            decreases n - i,
        {
            if bytes_eq(self.users[i].salt.as_slice(), salt) {
                return true;
            }
            i = i + 1;
        }
        false
    }

    /// Register an operator: draw a fresh random salt, hash the
    /// password with it, and store the credential.  The salt is random,
    /// so a collision with a stored one cannot be ruled out; whatever
    /// salt came back, no salt is ever stored twice.
    pub fn register_operator(&mut self, user_id: u128, username: Vec<u8>, password: &[u8]) -> (r:
        Result<(), RegisterError>)
        requires
            old(self).wf(),
        ensures
            final(self).wf(),
            r is Err ==> final(self).users() == old(self).users(),
            has_username(old(self).users(), username@) <==> r == Err::<(), RegisterError>(
                RegisterError::DuplicateUsername,
            ),
            old(self).users().len() == 0 && password@.len() <= 0xFFFF_FFFF ==> r is Ok,
            r is Ok ==> final(self).users().len() == old(self).users().len() + 1
                && final(self).users().take(old(self).users().len() as int) == old(self).users()
                && ({
                let c = final(self).users().last();
                &&& c.user_id == user_id
                &&& c.username@ == username@
                &&& c.salt@.len() == 32
                &&& !has_salt(old(self).users(), c.salt@)
                &&& c.digest@ == argon2_digest(password@, c.salt@)
            }),
    {
        if self.contains_username(username.as_slice()) {
            return Err(RegisterError::DuplicateUsername);
        }
        let salt = u128_to_hex(fresh_u128());
        if self.contains_salt(salt.as_slice()) {
            return Err(RegisterError::DuplicateSalt);
        }
        let digest = match hash_with_salt(password, salt.as_slice()) {
            Some(d) => d,
            None => {
                return Err(RegisterError::HashingUnavailable);
            },
        };
        let ghost pre = self.users();
        self.users.push(Credential { user_id, username, salt, digest });
        proof {
            assert(self.users().take(pre.len() as int) =~= pre);
        }
        Ok(())
    }

    /// Authenticate an operator.  The stored digest is compared against
    /// the digest of the candidate password under the stored salt; when
    /// the username is unknown, a dummy hash comparison is still
    /// performed so that both failures take comparable time, and the
    /// identical error value is returned.
    pub fn authenticate(&self, username: &[u8], password: &[u8]) -> (r: Result<u128, AuthError>)
        requires
            self.wf(),
        ensures
            r matches Ok(uid) ==> exists|i: int|
                0 <= i < self.users().len() && (#[trigger] self.users()[i]).username@ == username@
                    && self.users()[i].digest@ == argon2_digest(password@, self.users()[i].salt@)
                    && uid == self.users()[i].user_id,
            !has_username(self.users(), username@) ==> r == Err::<u128, AuthError>(
                AuthError::InvalidCredentials,
            ),
            forall|i: int|
                0 <= i < self.users().len() && (#[trigger] self.users()[i]).username@ == username@
                    && self.users()[i].digest@ != argon2_digest(password@, self.users()[i].salt@)
                    ==> r == Err::<u128, AuthError>(AuthError::InvalidCredentials),
            forall|i: int|
                0 <= i < self.users().len() && (#[trigger] self.users()[i]).username@ == username@
                    && self.users()[i].digest@ == argon2_digest(password@, self.users()[i].salt@)
                    && password@.len() <= 0xFFFF_FFFF ==> r == Ok::<u128, AuthError>(
                    self.users()[i].user_id,
                ),
    {
        let n = self.users.len();
        let mut i: usize = 0;
        while i < n
            invariant
                self.wf(),
                n == self.users().len(),
                i <= n,
                forall|j: int| 0 <= j < i ==> self.users()[j].username@ != username@,
            decreases n - i,
        {
            if bytes_eq(self.users[i].username.as_slice(), username) {
                let computed = hash_with_salt(password, self.users[i].salt.as_slice());
                let r = check_digest(&self.users[i], &computed);
                proof {
                    if password@.len() <= 0xFFFF_FFFF {
                        assert(computed is Some);
                    }
                    assert forall|j: int|
                        0 <= j < self.users().len() && (#[trigger] self.users()[j]).username@
                            == username@ && self.users()[j].digest@ != argon2_digest(
                            password@,
                            self.users()[j].salt@,
                        ) implies r == Err::<u128, AuthError>(AuthError::InvalidCredentials) by {
                        if j < i as int {
                            assert(self.users()[j].username@ != username@);
                        } else if j > i as int {
                            assert(self.users()[i as int].username@ != self.users()[j].username@);
                        }
                        assert(j == i as int);
                        assert(r is Err);
                        assert(r->Err_0 == AuthError::InvalidCredentials);
                    }
                    assert forall|j: int|
                        0 <= j < self.users().len() && (#[trigger] self.users()[j]).username@
                            == username@ && self.users()[j].digest@ == argon2_digest(
                            password@,
                            self.users()[j].salt@,
                        ) && password@.len() <= 0xFFFF_FFFF implies r == Ok::<u128, AuthError>(
                        self.users()[j].user_id,
                    ) by {
                        if j < i as int {
                            assert(self.users()[j].username@ != username@);
                        } else if j > i as int {
                            assert(self.users()[i as int].username@ != self.users()[j].username@);
                        }
                        assert(j == i as int);
                        assert(computed is Some);
                    }
                }
                return r;
            }
            i = i + 1;
        }
        // no such operator: perform a dummy comparison anyway, so that
        // an unknown username takes as long as a wrong password
        let dummy_salt = u128_to_hex(0);
        let computed = hash_with_salt(password, dummy_salt.as_slice());
        let dummy = Credential {
            user_id: 0,
            username: Vec::new(),
            salt: dummy_salt,
            digest: u128_to_hex(0),
        };
        let _ = check_digest(&dummy, &computed);
        Err(AuthError::InvalidCredentials)
    }
}

/// An operator registered with a password authenticates with that same
/// password: the recomputed digest necessarily equals the stored one.
pub proof fn lemma_correct_password_accepted(c: Credential, password: Seq<u8>)
    requires
        c.digest@ == argon2_digest(password, c.salt@),
    ensures
        spec_check_digest(c, Some(argon2_digest(password, c.salt@))) == Ok::<u128, AuthError>(
            c.user_id,
        ),
{
}

/// Every failed authentication returns the identical error value,
/// whether the username was unknown or the password was wrong.
pub proof fn lemma_auth_failures_indistinguishable(
    r1: Result<u128, AuthError>,
    r2: Result<u128, AuthError>,
)
    requires
        r1 is Err,
        r2 is Err,
    ensures
        r1 == r2,
{
    assert(r1->Err_0 == AuthError::InvalidCredentials);
    assert(r2->Err_0 == AuthError::InvalidCredentials);
}

} // verus!
