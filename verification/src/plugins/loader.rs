//! Finding the plugins under a directory.
//!
//! Reading the directory and the manifests is the application's; the rule
//! of what counts as a plugin is here.

use crate::plugins::manifest::PluginManifest;
use std::path::PathBuf;
use vstd::prelude::*;

verus! {

/// The file that makes a directory a plugin.
pub open spec fn manifest_file_name() -> Seq<char> {
    "plugin.json"@
}

/// A plugin that was found: its manifest and its directory.
#[derive(Debug, Clone)]
pub struct LoadedPlugin {
    pub manifest: PluginManifest,
    pub root_dir: PathBuf,
}

/// Looks for plugins under one directory.
#[derive(Debug)]
pub struct PluginLoader {
    root: PathBuf,
}

/// What the application found of one entry of the plugin directory.
#[derive(Debug)]
pub struct DirectoryEntry {
    pub path: PathBuf,
    pub is_dir: bool,
    /// The manifest read from the entry's manifest file, if it has one.
    pub manifest: Option<PluginManifest>,
}

/// An entry is a plugin if it is a directory with a manifest.
pub open spec fn is_plugin(entry: DirectoryEntry) -> bool {
    entry.is_dir && entry.manifest is Some
}

/// The plugins among the first `n` entries, in order.
pub open spec fn plugins_among(entries: Seq<DirectoryEntry>, n: int) -> Seq<LoadedPlugin>
    decreases n,
{
    if n <= 0 {
        Seq::empty()
    } else if is_plugin(entries[n - 1]) {
        plugins_among(entries, n - 1).push(
            LoadedPlugin { manifest: entries[n - 1].manifest->0, root_dir: entries[n - 1].path },
        )
    } else {
        plugins_among(entries, n - 1)
    }
}

impl PluginLoader {
    /// The directory that is searched.
    pub closed spec fn root(&self) -> PathBuf {
        self.root
    }

    pub fn new(root: PathBuf) -> (r: Self)
        ensures
            r.root() == root,
    {
        PluginLoader { root }
    }

    pub fn root_dir(&self) -> (r: &PathBuf)
        ensures
            *r == self.root(),
    {
        &self.root
    }

    /// The name of the manifest file.
    pub fn manifest_name() -> (r: &'static str)
        ensures
            r@ == manifest_file_name(),
    {
        "plugin.json"
    }

    /// Picks the plugins from the entries of the directory: every
    /// directory with a manifest, in the order of the entries.
    pub fn discover(&self, entries: Vec<DirectoryEntry>) -> (r: Vec<LoadedPlugin>)
        ensures
            r@ == plugins_among(entries@, entries@.len() as int),
    {
        let mut items: Vec<LoadedPlugin> = Vec::new();
        let ghost all = entries@;
        let mut rest = entries;
        let mut taken: Vec<LoadedPlugin> = Vec::new();
        while rest.len() > 0
            invariant
                rest@.len() <= all.len(),
                forall|k: int| 0 <= k < rest@.len() ==> rest@[k] == all[k],
                taken@.len() <= all.len() - rest@.len(),
                plugins_among(all, all.len() as int) == plugins_among(all, rest@.len() as int)
                    + taken@.reverse(),
            decreases rest@.len(),
        {
            let ghost n = rest@.len() as int;
            let ghost before = taken@;
            let entry = rest.pop().unwrap();
            assert(entry == all[n - 1]);
            if entry.is_dir {
                match entry.manifest {
                    Some(manifest) => {
                        taken.push(LoadedPlugin { manifest, root_dir: entry.path });
                        proof {
                            let plugin = LoadedPlugin {
                                manifest: all[n - 1].manifest->0,
                                root_dir: all[n - 1].path,
                            };
                            assert(taken@.reverse() =~= seq![plugin] + before.reverse());
                            assert(plugins_among(all, n) + before.reverse() =~= plugins_among(
                                all,
                                n - 1,
                            ) + taken@.reverse());
                        }
                    },
                    None => {},
                }
            }
        }
        assert(plugins_among(all, 0) + taken@.reverse() =~= taken@.reverse());
        let ghost found = taken@;
        assert(items@ + taken@.reverse() =~= found.reverse());
        while taken.len() > 0
            invariant
                items@ + taken@.reverse() == found.reverse(),
            decreases taken@.len(),
        {
            let ghost before_items = items@;
            let ghost before_taken = taken@;
            let plugin = taken.pop().unwrap();
            items.push(plugin);
            proof {
                assert(before_taken.reverse() =~= seq![plugin] + taken@.reverse());
                assert(items@ + taken@.reverse() =~= before_items + before_taken.reverse());
            }
        }
        assert(items@ + taken@.reverse() =~= items@);
        items
    }
}

} // verus!
