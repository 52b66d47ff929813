//! Identity and session core of the chat backend: credential hashing, bearer
//! tokens, unique identifiers, the presence registry and the life of one
//! real-time connection, each with a contract that is proved of it.

pub mod clock;
pub mod db;
pub mod decimal;
pub mod err;
pub mod extract;
pub mod hasher;
pub mod ids;
pub mod idsource;
pub mod json;
pub mod jwt;
pub mod model;
pub mod response;
pub mod routes;
pub mod state;
