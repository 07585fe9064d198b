//! Verified core of the learning-game server: password hashing, session
//! tokens, the quiz game's score keeping and question shuffling, request
//! routing and the replies of the HTTP handlers.

pub mod game;
pub mod hash;
pub mod random;
pub mod text;
pub mod sessions;
pub mod users;
pub mod handlers;
pub mod routing;
pub mod ffi_util;
