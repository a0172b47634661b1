//! Verified core of a family of web services: roles and role guards,
//! access, session and handler tokens with their JSON web token framing,
//! request admission, account forms and their validation reports,
//! sign-in and invitation decisions, password hashing, chat session
//! control, one-minute trade candles, exchange order vocabulary, and the
//! records of the ritual, media and user directory services.
use vstd::prelude::*;

pub mod access_token;
pub mod accounts;
pub mod admission;
pub mod base64url;
pub mod candles;
pub mod chat;
pub mod directory;
pub mod directory_model;
pub mod exchange;
pub mod handler_token;
pub mod json;
pub mod jwt;
pub mod login;
pub mod media;
pub mod passwords;
pub mod rituals;
pub mod roles;
pub mod session_token;
pub mod text;
pub mod uuid;
pub mod user_input;
pub mod validation;

verus! {
}
