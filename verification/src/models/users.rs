//! Users, their credentials and their sessions.

use crate::crypto::{digestible, pbkdf2_derive, pbkdf2_hmac_sha256, pbkdf2_verify, random_bytes, CREDENTIAL_LEN};
use crate::ids::{is_random_uuid, lemma_random_uuid_is_marked, random_uuid, uuid_from_random_bytes};
use crate::text::{lowercase, to_lowercase};
use vstd::prelude::*;
use vstd::utf8::encode_utf8;

verus! {

/// Iteration count of the credentials made at sign-up.
pub const SIGNUP_ITERATIONS: u32 = 10000;

/// Salt length in bytes of the credentials made at sign-up.
pub const SIGNUP_SALT_LEN: usize = 16;

/// A stored user.
#[derive(Debug, PartialEq, Eq)]
pub struct User {
    pub id: i32,
    pub username: String,
    pub iterations: i32,
    pub salt: Vec<u8>,
    pub credential: Vec<u8>,
}

/// A user as it is stored, before the store has given it an id.
#[derive(Debug, PartialEq, Eq)]
pub struct NewUser {
    pub username: String,
    pub iterations: i32,
    pub salt: Vec<u8>,
    pub credential: Vec<u8>,
}

/// A login session: a random UUID (as a big-endian `u128`) and its user.
#[derive(Debug, PartialEq, Eq)]
pub struct UserSession {
    pub id: u128,
    pub user_id: i32,
}

fn copy_bytes(bytes: &Vec<u8>) -> (copy: Vec<u8>)
    ensures
        copy@ == bytes@,
{
    let mut copy: Vec<u8> = Vec::new();
    let mut i: usize = 0;
    while i < bytes.len()
        invariant
            i <= bytes@.len(),
            copy@ == bytes@.take(i as int),
        decreases bytes@.len() - i,
    {
        copy.push(bytes[i]);
        i = i + 1;
        assert(copy@ =~= bytes@.take(i as int));
    }
    assert(bytes@.take(bytes@.len() as int) =~= bytes@);
    copy
}

impl Clone for User {
    fn clone(&self) -> (copy: Self)
        ensures
            copy.id == self.id,
            copy.username == self.username,
            copy.iterations == self.iterations,
            copy.salt@ == self.salt@,
            copy.credential@ == self.credential@,
    {
        let salt = copy_bytes(&self.salt);
        let credential = copy_bytes(&self.credential);
        User { id: self.id, username: self.username.clone(), iterations: self.iterations, salt, credential }
    }
}

/// The key under which a username is stored and looked up: its lowercase form.
pub fn normalize_username(username: &str) -> (key: String)
    ensures
        key@ == lowercase(username@),
{
    to_lowercase(username)
}

impl User {
    /// The stored credential is the PBKDF2 key, of its own length, of the UTF-8
    /// bytes of `password` under the stored iteration count and salt.
    pub open spec fn accepts(self, password: Seq<char>) -> bool {
        &&& self.credential@.len() > 0
        &&& pbkdf2_hmac_sha256(
            self.iterations as u32,
            self.salt@,
            encode_utf8(password),
            self.credential@.len(),
        ) == self.credential@
    }

    /// The inputs of a check are small enough for it to be decided: a credential
    /// no longer than PBKDF2 can derive (2^32 - 1 blocks of 32 bytes), and a salt
    /// and password within SHA-256's input limit.
    pub open spec fn checkable(self, password: Seq<char>) -> bool {
        &&& self.credential@.len() <= 0xffff_ffff * 32
        &&& digestible(self.salt@.len())
        &&& digestible(encode_utf8(password).len())
    }

    /// This user row is the stored form of `new_user`: same name, iteration
    /// count, salt and credential.
    pub open spec fn stores(self, new_user: NewUser) -> bool {
        &&& self.username@ == new_user.username@
        &&& self.iterations == new_user.iterations
        &&& self.salt@ == new_user.salt@
        &&& self.credential@ == new_user.credential@
    }

    /// Whether `password` is the password this user's credential was derived
    /// from. An iteration count of 0 is refused by PBKDF2 and left out.
    pub fn verify_password(&self, password: &str) -> (ok: bool)
        requires
            self.iterations != 0,
        ensures
            ok ==> self.accepts(password@),
            self.accepts(password@) && self.checkable(password@) ==> ok,
            ok ==> self.credential@.len() > 0 && pbkdf2_hmac_sha256(
                self.iterations as u32,
                self.salt@,
                encode_utf8(password@),
                self.credential@.len(),
            ) == self.credential@,
            (0 < self.credential@.len() <= 0xffff_ffff * 32 && digestible(self.salt@.len()) && digestible(
                encode_utf8(password@).len(),
            ) && pbkdf2_hmac_sha256(
                self.iterations as u32,
                self.salt@,
                encode_utf8(password@),
                self.credential@.len(),
            ) == self.credential@) ==> ok,
    {
        let iterations = self.iterations;
        assert(iterations as u32 != 0) by (bit_vector)
            requires
                iterations != 0i32,
        ;
        pbkdf2_verify(self.iterations as u32, self.salt.as_slice(), password.as_bytes(), self.credential.as_slice())
    }
}

impl NewUser {
    /// `self` was made for `username` and `password` with `iterations` and
    /// `salt`: the username is lowercased, the iteration count kept (as an
    /// `i32`, bit for bit) and the credential is the 32-byte PBKDF2 key.
    pub open spec fn derived_from(
        self,
        username: Seq<char>,
        password: Seq<char>,
        iterations: u32,
        salt: Seq<u8>,
    ) -> bool {
        &&& self.username@ == lowercase(username)
        &&& self.iterations == iterations as i32
        &&& self.salt@ == salt
        &&& self.credential@ == pbkdf2_hmac_sha256(
            iterations,
            salt,
            encode_utf8(password),
            CREDENTIAL_LEN as nat,
        )
        &&& self.credential@.len() == CREDENTIAL_LEN
    }

    /// The user to store for `username` and `password` with the given iteration
    /// count and salt.
    pub fn with_salt(username: String, password: String, iterations: u32, salt: Vec<u8>) -> (user: NewUser)
        requires
            iterations != 0,
            digestible(salt@.len()),
            digestible(encode_utf8(password@).len()),
        ensures
            user.derived_from(username@, password@, iterations, salt@),
            user.username@ == lowercase(username@),
            user.iterations == iterations as i32,
            user.iterations as u32 == iterations,
            user.salt@ == salt@,
            user.credential@ == pbkdf2_hmac_sha256(iterations, salt@, encode_utf8(password@), 32),
            user.credential@.len() == 32,
    {
        let credential = pbkdf2_derive(iterations, salt.as_slice(), password.as_str().as_bytes());
        assert((iterations as i32) as u32 == iterations) by (bit_vector);
        NewUser {
            username: to_lowercase(username.as_str()),
            iterations: iterations as i32,
            salt,
            credential,
        }
    }

    /// The user to store for `username` and `password`, with a fresh random salt
    /// of `salt_len` bytes. `None` when the system's random generator fails.
    pub fn new(username: String, password: String, iterations: u32, salt_len: usize) -> (user: Option<NewUser>)
        requires
            iterations != 0,
            digestible(salt_len as nat),
            digestible(encode_utf8(password@).len()),
        ensures
            user matches Some(u) ==> u.salt@.len() == salt_len && u.derived_from(
                username@,
                password@,
                iterations,
                u.salt@,
            ),
            user matches Some(u) ==> u.iterations as u32 == iterations && u.credential@ == pbkdf2_hmac_sha256(
                iterations,
                u.salt@,
                encode_utf8(password@),
                32,
            ),
    {
        match random_bytes(salt_len) {
            Some(salt) => Some(NewUser::with_salt(username, password, iterations, salt)),
            None => None,
        }
    }

    /// The user to store when `username` signs up with `password`: the name is
    /// lowercased first, and the credential uses the sign-up iteration count and
    /// a fresh 16-byte salt. `None` when the system's random generator fails.
    pub fn create(username: &str, password: String) -> (user: Option<NewUser>)
        requires
            digestible(encode_utf8(password@).len()),
        ensures
            user matches Some(u) ==> u.salt@.len() == SIGNUP_SALT_LEN && u.derived_from(
                lowercase(username@),
                password@,
                SIGNUP_ITERATIONS,
                u.salt@,
            ),
            user matches Some(u) ==> u.iterations == 10000 && u.username@ == lowercase(lowercase(username@))
                && u.credential@ == pbkdf2_hmac_sha256(10000, u.salt@, encode_utf8(password@), 32),
    {
        let username = normalize_username(username);
        NewUser::new(username, password, SIGNUP_ITERATIONS, SIGNUP_SALT_LEN)
    }
}

/// Length in bytes of the random draw a session id is made from.
pub const SESSION_ID_BYTES: usize = 16;

impl UserSession {
    /// The session for `user_id` whose id is the random UUID made of `bytes`.
    pub fn with_id_bytes(user_id: i32, bytes: &Vec<u8>) -> (session: UserSession)
        requires
            bytes@.len() == SESSION_ID_BYTES,
        ensures
            session.user_id == user_id,
            session.id == random_uuid(bytes@),
            is_random_uuid(session.id),
    {
        proof {
            lemma_random_uuid_is_marked(bytes@);
        }
        UserSession { id: uuid_from_random_bytes(bytes), user_id }
    }

    /// A new session for `user_id`, under a random UUID made of 16 fresh random
    /// bytes. `None` when the system's random generator fails.
    pub fn create(user_id: i32) -> (session: Option<UserSession>)
        ensures
            session matches Some(s) ==> s.user_id == user_id && is_random_uuid(s.id),
    {
        match random_bytes(SESSION_ID_BYTES) {
            Some(bytes) => Some(UserSession::with_id_bytes(user_id, &bytes)),
            None => None,
        }
    }
}

/// A user stored from a sign-up with `password` accepts `password`, and its
/// check can be decided: signing up and then checking the same password
/// succeeds.
pub proof fn lemma_stored_user_accepts_its_password(
    stored: User,
    new_user: NewUser,
    username: Seq<char>,
    password: Seq<char>,
    iterations: u32,
    salt: Seq<u8>,
)
    requires
        iterations != 0,
        digestible(salt.len()),
        digestible(encode_utf8(password).len()),
        new_user.derived_from(username, password, iterations, salt),
        stored.stores(new_user),
    ensures
        stored.iterations != 0,
        stored.accepts(password),
        stored.checkable(password),
{
    assert((iterations as i32) as u32 == iterations) by (bit_vector);
    assert((iterations as i32) != 0) by (bit_vector)
        requires
            iterations != 0u32,
    ;
}

/// A stored user accepts a password exactly when its credential is not empty
/// and is the PBKDF2-HMAC-SHA256 key, of the credential's length, of that
/// password's UTF-8 bytes under the stored salt and the stored iteration count
/// (read as unsigned, bit for bit).
pub proof fn lemma_accepts_is_pbkdf2(user: User, password: Seq<char>)
    ensures
        user.accepts(password) <==> (user.credential@.len() > 0 && pbkdf2_hmac_sha256(
            user.iterations as u32,
            user.salt@,
            encode_utf8(password),
            user.credential@.len(),
        ) == user.credential@),
{
}

/// A user made for a password with an iteration count and salt carries that
/// count and salt and, as credential, the 32-byte PBKDF2-HMAC-SHA256 key derived
/// with exactly that count and salt from the password's UTF-8 bytes.
pub proof fn lemma_derived_from_is_pbkdf2(
    new_user: NewUser,
    username: Seq<char>,
    password: Seq<char>,
    iterations: u32,
    salt: Seq<u8>,
)
    ensures
        new_user.derived_from(username, password, iterations, salt) <==> ({
            &&& new_user.username@ == lowercase(username)
            &&& new_user.iterations == iterations as i32
            &&& new_user.salt@ == salt
            &&& new_user.credential@ == pbkdf2_hmac_sha256(iterations, salt, encode_utf8(password), 32)
            &&& new_user.credential@.len() == 32
        }),
{
}

/// A check can be decided exactly when the credential is no longer than
/// PBKDF2 can derive (2^32 - 1 blocks of 32 bytes) and the salt and the
/// password's UTF-8 bytes are below 2^60 bytes.
pub proof fn lemma_checkable_is_size_limits(user: User, password: Seq<char>)
    ensures
        user.checkable(password) <==> (user.credential@.len() <= 0xffff_ffff * 32 && user.salt@.len()
            < 0x1000_0000_0000_0000 && encode_utf8(password).len() < 0x1000_0000_0000_0000),
{
}

} // verus!
