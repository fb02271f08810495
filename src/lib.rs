//! Passwordless authentication core: passkey registration and
//! authentication ceremonies over a credential store and a store of
//! short-lived ceremony sessions, with replay-counter checks and a
//! sliding-window rate limiter in front of them.

use vstd::prelude::*;

pub mod ceremony;
pub mod credential;
pub mod error;
pub mod rate_limit;
pub mod relying_party;
pub mod security;
pub mod session;
pub mod shared_types;
