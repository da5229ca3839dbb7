//! Stores: shared collections of application templates that can be pulled from a URL.
use vstd::prelude::*;
use crate::templates::AppTemplate;

verus! {

/// The largest packed store accepted, in bytes (10 MiB).
pub const MAX_STORE_SIZE: usize = 10485760;

/// The content of a store: application templates.
#[derive(Debug)]
pub struct StoreContent {
    pub apps: Vec<AppTemplate>,
    pub created_on: u64,
}

impl StoreContent {
    /// A store holding these templates.
    pub fn new(apps: Vec<AppTemplate>, created_on: u64) -> (r: StoreContent)
        ensures
            r.apps@ == apps@,
            r.created_on == created_on,
    {
        StoreContent { apps, created_on }
    }

    /// The templates of the store.
    pub fn list_apps(&self) -> (r: &[AppTemplate])
        ensures
            r@ == self.apps@,
    {
        self.apps.as_slice()
    }
}

/// Whether a packed store of this many bytes may be read or written.
pub fn within_store_limit(len: usize) -> (r: bool)
    ensures
        r == (len <= MAX_STORE_SIZE),
{
    len <= MAX_STORE_SIZE
}

/// Where a store is found.
#[derive(Debug, Clone)]
pub struct StoreConfig {
    pub url: String,
}

/// A store reachable at a URL.
#[derive(Debug, Clone)]
pub struct StoreInterface {
    pub url: String,
}

impl StoreInterface {
    /// The store at the configured URL.
    pub fn new(config: StoreConfig) -> (r: StoreInterface)
        ensures
            r.url == config.url,
    {
        StoreInterface { url: config.url }
    }
}

} // verus!
