//! What each endpoint decides, apart from the transport that carries it.

pub mod auth;
pub mod info;
pub mod ws;
