//! The asset cache's place on disk.

use crate::error::{CoreError, CoreResult};
use std::path::PathBuf;
use vstd::prelude::*;

verus! {

/// The cache of downloaded assets under one directory.
pub struct CacheManager {
    root: PathBuf,
}

impl CacheManager {
    /// The directory under which the cache lives.
    pub closed spec fn root(&self) -> PathBuf {
        self.root
    }

    pub fn new(root: PathBuf) -> (r: Self)
        ensures
            r.root() == root,
    {
        Self { root }
    }

    pub fn root_dir(&self) -> (r: &PathBuf)
        ensures
            *r == self.root(),
    {
        &self.root
    }

    /// Emptying the cache is not offered: always the same configuration
    /// error.
    pub fn purge(&self) -> (r: CoreResult<()>)
        ensures
            r matches Err(CoreError::Config(m)) && m@ == "cache purge not implemented"@,
    {
        Err(CoreError::Config("cache purge not implemented".to_owned()))
    }
}

} // verus!
