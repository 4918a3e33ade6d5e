//! Configuration data.
//!
//! The shapes that configuration is read into. Reading and merging the
//! sources (files, environment) happens outside the library; the library
//! only defines the data and its defaults.

use vstd::prelude::*;

verus! {

/// Default channel capacity for each component.
pub const DEFAULT_BUFFER_SIZE: usize = 32;

/// Directory settings.
pub struct Directory {
    pub buffer_size: Option<usize>,
}

/// One client's settings.
pub struct Client {
    pub id: String,
    pub buffer_size: Option<usize>,
}

/// Routing-server settings.
pub struct Server {
    pub buffer_size: Option<usize>,
}

/// The whole configuration.
pub struct Config {
    pub server: Option<Server>,
    pub directory: Option<Directory>,
    pub clients: Option<Vec<Client>>,
}

/// A configuration that could not be read.
#[derive(Debug)]
pub struct ConfigError {
    pub message: String,
}

/// The channel capacity a component setting asks for, or the default.
pub fn effective_buffer_size(requested: Option<usize>) -> (r: usize)
    ensures
        match requested {
            Some(n) => r == n,
            None => r == DEFAULT_BUFFER_SIZE,
        },
{
    match requested {
        Some(n) => n,
        None => DEFAULT_BUFFER_SIZE,
    }
}

} // verus!
