//! What a plugin may do.

use vstd::prelude::*;

verus! {

/// What a plugin is permitted.
#[derive(Debug, Clone)]
pub struct PermissionSet {
    pub config_read: bool,
    pub config_write: bool,
    pub process_control: bool,
    pub window_control: bool,
    pub notifications: bool,
    pub network: NetworkPermission,
}

/// The domains a plugin may reach.
#[derive(Debug, Clone)]
pub struct NetworkPermission {
    pub allowed_domains: Vec<String>,
}

impl PermissionSet {
    /// Nothing is permitted.
    pub open spec fn is_empty(self) -> bool {
        &&& !self.config_read
        &&& !self.config_write
        &&& !self.process_control
        &&& !self.window_control
        &&& !self.notifications
        &&& self.network.allowed_domains@.len() == 0
    }
}

impl Default for NetworkPermission {
    fn default() -> (r: Self)
        ensures
            r.allowed_domains@.len() == 0,
    {
        NetworkPermission { allowed_domains: Vec::new() }
    }
}

impl Default for PermissionSet {
    fn default() -> (r: Self)
        ensures
            r.is_empty(),
    {
        PermissionSet {
            config_read: false,
            config_write: false,
            process_control: false,
            window_control: false,
            notifications: false,
            network: NetworkPermission::default(),
        }
    }
}

} // verus!
