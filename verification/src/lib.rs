//! A small mix-network style anonymous-messaging substrate.
//!
//! Senders route payloads through a chain of relaying identities using
//! layered ("onion") encryption, so that no single relay learns the full
//! path. A directory service provides public-key discovery, a routing
//! server pushes packets to live recipients, and a store-and-forward
//! transport buffers packets for recipients that are temporarily absent.
//!
//! The modules here hold the routing, registration and buffering logic
//! together with its contracts; channel plumbing and process wiring live
//! outside the library.

pub mod bytes;
pub mod client;
pub mod config;
pub mod directory;
pub mod onion;
pub mod metrics;
pub mod packet;
pub mod registry;
pub mod server;
pub mod transport;
pub mod user;
pub mod whatsapp;
