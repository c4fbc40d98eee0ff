//! Short links: value objects that cannot hold invalid data, a URL check that
//! refuses targets inside the operator's network, delete secrets kept only as
//! salted Argon2id hashes, and a service that creates, resolves and deletes
//! links through two storage ports.

pub mod errors;
pub mod net;
pub mod text;
pub mod target;
pub mod digest;
pub mod random;
pub mod ids;
pub mod link;
pub mod secret;
pub mod ports;
pub mod usecase;
pub mod service;
pub mod form;
