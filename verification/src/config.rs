//! The launcher's configuration, as plain values.

use std::path::PathBuf;
use vstd::prelude::*;

verus! {

/// Everything that is configured.
#[derive(Debug, Clone)]
pub struct CoreConfig {
    pub launcher: LauncherConfig,
    pub game: GameConfig,
    pub cache: CacheConfig,
    pub update: UpdateConfig,
}

/// How the projector is started.
#[derive(Debug, Clone)]
pub struct LauncherConfig {
    pub projector_path: Option<PathBuf>,
    pub main_swf_url: Option<String>,
    pub allow_multi_instance: bool,
    pub auto_restart_on_crash: bool,
}

/// How the game is shown.
#[derive(Debug, Clone)]
pub struct GameConfig {
    pub window_title: Option<String>,
    pub fps_limit: Option<u32>,
}

/// Where and how much is cached.
#[derive(Debug, Clone)]
pub struct CacheConfig {
    pub root_dir: Option<PathBuf>,
    pub max_size_mb: Option<u64>,
}

/// Which updates are looked for.
#[derive(Debug, Clone)]
pub struct UpdateConfig {
    pub channel: Option<String>,
    pub allow_prerelease: bool,
}

impl Default for LauncherConfig {
    fn default() -> (r: Self)
        ensures
            r.projector_path is None,
            r.main_swf_url is None,
            !r.allow_multi_instance,
            !r.auto_restart_on_crash,
    {
        LauncherConfig {
            projector_path: None,
            main_swf_url: None,
            allow_multi_instance: false,
            auto_restart_on_crash: false,
        }
    }
}

impl Default for GameConfig {
    fn default() -> (r: Self)
        ensures
            r.window_title is None,
            r.fps_limit is None,
    {
        GameConfig { window_title: None, fps_limit: None }
    }
}

impl Default for CacheConfig {
    fn default() -> (r: Self)
        ensures
            r.root_dir is None,
            r.max_size_mb is None,
    {
        CacheConfig { root_dir: None, max_size_mb: None }
    }
}

impl Default for UpdateConfig {
    fn default() -> (r: Self)
        ensures
            r.channel is None,
            !r.allow_prerelease,
    {
        UpdateConfig { channel: None, allow_prerelease: false }
    }
}

impl CoreConfig {
    /// Nothing is configured: every option is absent and every switch off.
    pub open spec fn is_blank(self) -> bool {
        &&& self.launcher.projector_path is None
        &&& self.launcher.main_swf_url is None
        &&& !self.launcher.allow_multi_instance
        &&& !self.launcher.auto_restart_on_crash
        &&& self.game.window_title is None
        &&& self.game.fps_limit is None
        &&& self.cache.root_dir is None
        &&& self.cache.max_size_mb is None
        &&& self.update.channel is None
        &&& !self.update.allow_prerelease
    }
}

impl Default for CoreConfig {
    fn default() -> (r: Self)
        ensures
            r.is_blank(),
    {
        CoreConfig {
            launcher: LauncherConfig::default(),
            game: GameConfig::default(),
            cache: CacheConfig::default(),
            update: UpdateConfig::default(),
        }
    }
}

} // verus!
