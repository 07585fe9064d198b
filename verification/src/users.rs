//! Registered users and the decision a login makes.

use vstd::prelude::*;

use crate::hash::{base64_standard_decoding, derived_key, password_matches, verify_password, HASH_LEN, SALT_LEN};
use vstd::string::StringSliceAdditionalSpecFns;

verus! {

/// A registered user as stored: the password is kept only as its hash.
#[derive(Debug)]
pub struct User {
    pub id: i64,
    pub username: String,
    pub password_hash: String,
}

/// Whether a login with this password is accepted for this user.
pub open spec fn login_accepted(user: User, password: &str) -> bool {
    password_matches(password.spec_bytes(), user.password_hash@)
}

/// Law of login: a user is accepted with exactly the passwords that its
/// stored hash accepts, with no other condition.
pub proof fn lemma_login_accepts_exactly_matching(user: User, password: &str)
    ensures
        login_accepted(user, password) <==> password_matches(password.spec_bytes(), user.password_hash@),
{
}

/// Law of login after sign-up: a user whose stored hash is the base64 text
/// of a 16-byte salt followed by the key derived from a password under it
/// (what `hash_password` and `hash_password_with_salt` store, together
/// with the key's length of `HASH_LEN` bytes) is accepted with that
/// password.
pub proof fn lemma_login_after_hashing(user: User, password: &str, salt: Seq<u8>)
    requires
        salt.len() == SALT_LEN,
        derived_key(password.spec_bytes(), salt).len() == HASH_LEN,
        base64_standard_decoding(user.password_hash@) == Some(salt + derived_key(password.spec_bytes(), salt)),
    ensures
        login_accepted(user, password),
{
    let decoded = salt + derived_key(password.spec_bytes(), salt);
    assert(decoded.subrange(0, SALT_LEN as int) =~= salt);
    assert(decoded.subrange(SALT_LEN as int, decoded.len() as int) =~= derived_key(password.spec_bytes(), salt));
}

/// Decides a login: the user found under the given name is returned, to
/// open a session for, exactly when there is one and the password matches
/// its stored hash; an unknown name or a wrong password gives `None`.
pub fn authenticate(found: Option<User>, password: &str) -> (session_user: Option<User>)
    ensures
        session_user == match found {
            Some(user) => if login_accepted(user, password) {
                Some(user)
            } else {
                None
            },
            None => None,
        },
        found is None ==> session_user is None,
        found matches Some(user) && password_matches(password.spec_bytes(), user.password_hash@) ==> session_user
            == found,
        session_user matches Some(user) ==> found == Some(user) && password_matches(
            password.spec_bytes(),
            user.password_hash@,
        ),
{
    match found {
        Some(user) => {
            if verify_password(password, user.password_hash.as_str()) {
                Some(user)
            } else {
                None
            }
        },
        None => None,
    }
}

} // verus!
