//! Stored records of the user directory.
use vstd::prelude::*;

verus! {

/// A stored directory user.
pub struct UserEntity {
    pub id: u128,
    pub role_id: i32,
    pub username: String,
    pub first_name: String,
    pub last_name: String,
    pub email: String,
    pub email_verified: bool,
    pub hash: String,
}

/// A directory user about to be stored.
pub struct NewUserEntity {
    pub email: String,
    pub username: String,
    pub first_name: String,
    pub last_name: String,
    pub hash: String,
    pub role_id: i32,
}

/// A stored user with its profile.
pub struct User {
    pub id: u128,
    pub username: String,
    pub email: String,
    pub email_verified: bool,
    pub password: String,
    pub bio: Option<String>,
    pub image: Option<String>,
    pub created_at: chrono::NaiveDateTime,
    pub updated_at: chrono::NaiveDateTime,
}

/// A user with a profile about to be stored.
pub struct NewUser {
    pub username: String,
    pub email: String,
    pub hash: String,
}

/// A change to a stored user; absent fields stay as they are.
pub struct UserChange {
    pub username: Option<String>,
    pub email: Option<String>,
    pub email_verified: Option<bool>,
    pub hash: Option<String>,
}

} // verus!
