//! What the host offers a plugin. The application implements it.

use crate::config::CoreConfig;
use crate::plugins::permissions::PermissionSet;
use crate::process::ProcessHandle;
use vstd::prelude::*;

verus! {

/// What a plugin may ask of the host, within its permissions.
pub trait HostApi {
    fn permissions(&self) -> PermissionSet;

    fn get_config(&self) -> CoreConfig;

    fn set_config(&self, cfg: CoreConfig);

    fn launch(&self) -> Result<ProcessHandle, anyhow::Error>;

    fn restart(&self, handle: ProcessHandle) -> Result<ProcessHandle, anyhow::Error>;

    fn stop(&self, handle: ProcessHandle) -> Result<(), anyhow::Error>;

    fn notify(&self, title: &str, body: &str);
}

} // verus!
