use gurka::models::users::{normalize_username, SIGNUP_ITERATIONS, SIGNUP_SALT_LEN};
use gurka::models::{NewUser, User, UserSession};

fn stored(new_user: &NewUser) -> User {
    User {
        id: 1,
        username: new_user.username.clone(),
        iterations: new_user.iterations,
        salt: new_user.salt.clone(),
        credential: new_user.credential.clone(),
    }
}

const RFC_7914_PBKDF2_SHA256_PASSWD_SALT_1: [u8; 32] = [
    0x55, 0xac, 0x04, 0x6e, 0x56, 0xe3, 0x08, 0x9f, 0xec, 0x16, 0x91, 0xc2, 0x25, 0x44, 0xb6, 0x05, 0xf9, 0x41, 0x85,
    0x21, 0x6d, 0xde, 0x04, 0x65, 0xe6, 0x8b, 0x9d, 0x57, 0xc2, 0x0d, 0xac, 0xbc,
];

#[test]
fn usernames_are_lowercased() {
    assert_eq!(normalize_username("JoHn"), "john");
    assert_eq!(normalize_username("ÅSA"), "åsa");
}

#[test]
fn credential_is_pbkdf2_hmac_sha256() {
    let new_user = NewUser::with_salt("x".to_string(), "passwd".to_string(), 1, b"salt".to_vec());
    assert_eq!(new_user.credential, RFC_7914_PBKDF2_SHA256_PASSWD_SALT_1.to_vec());
    assert_eq!(new_user.iterations, 1);
    assert_eq!(new_user.salt, b"salt".to_vec());
}

#[test]
fn with_salt_lowercases_and_keeps_iterations() {
    let new_user = NewUser::with_salt("John".to_string(), "abc123".to_string(), 3, vec![9; 16]);
    assert_eq!(new_user.username, "john");
    assert_eq!(new_user.iterations, 3);
    assert_eq!(new_user.credential.len(), 32);
    assert_ne!(new_user.credential, b"abc123".to_vec());
}

#[test]
fn new_user_draws_a_salt_of_the_asked_length() {
    let new_user = NewUser::new("John".to_string(), "abc123".to_string(), 5, 16).unwrap();
    assert_eq!(new_user.salt.len(), 16);
    assert_eq!(new_user.username, "john");
    let again = NewUser::with_salt("John".to_string(), "abc123".to_string(), 5, new_user.salt.clone());
    assert_eq!(again.credential, new_user.credential);
}

#[test]
fn sign_up_uses_fixed_parameters() {
    let new_user = NewUser::create("JOHN", "abc123".to_string()).unwrap();
    assert_eq!(new_user.username, "john");
    assert_eq!(new_user.iterations as u32, SIGNUP_ITERATIONS);
    assert_eq!(new_user.salt.len(), SIGNUP_SALT_LEN);
}

#[test]
fn signed_up_user_accepts_own_password() {
    let new_user = NewUser::create("john", "abc123".to_string()).unwrap();
    let user = stored(&new_user);
    assert!(user.verify_password("abc123"));
}

#[test]
fn signed_up_user_refuses_other_password() {
    let new_user = NewUser::with_salt("john".to_string(), "abc123".to_string(), 10, vec![4; 16]);
    let user = stored(&new_user);
    assert!(!user.verify_password("wrong password"));
    assert!(!user.verify_password(""));
}

#[test]
fn empty_credential_is_refused() {
    let user = User { id: 1, username: "a".to_string(), iterations: 1, salt: vec![], credential: vec![] };
    assert!(!user.verify_password(""));
}

#[test]
fn sessions_are_random_v4_uuids() {
    let session = UserSession::create(42).unwrap();
    assert_eq!(session.user_id, 42);
    assert_eq!((session.id >> 76) & 0xf, 4);
    assert_eq!((session.id >> 62) & 0x3, 2);
    let other = UserSession::create(42).unwrap();
    assert_ne!(session.id, other.id);
}

#[test]
fn session_id_is_the_bytes_with_version_and_variant_set() {
    let session = UserSession::with_id_bytes(3, &vec![0xff; 16]);
    assert_eq!(session.user_id, 3);
    assert_eq!(session.id, 0xffff_ffff_ffff_4fff_bfff_ffff_ffff_ffff);
    let session = UserSession::with_id_bytes(3, &vec![0; 16]);
    assert_eq!(session.id, 0x0000_0000_0000_4000_8000_0000_0000_0000);
    let bytes: Vec<u8> = (1..=16).collect();
    let session = UserSession::with_id_bytes(3, &bytes);
    assert_eq!(session.id, 0x0102_0304_0506_4708_890a_0b0c_0d0e_0f10);
}
