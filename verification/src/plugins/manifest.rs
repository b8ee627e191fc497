//! What a plugin declares of itself.

use crate::plugins::permissions::PermissionSet;
use crate::text::str_equal;
use std::path::PathBuf;
use vstd::prelude::*;

verus! {

/// The manifest of a plugin, as its `plugin.json` states it.
#[derive(Debug, Clone)]
pub struct PluginManifest {
    pub name: String,
    pub version: String,
    pub description: Option<String>,
    pub language: ScriptLanguage,
    pub entry: PathBuf,
    pub permissions: PermissionSet,
    pub dependencies: Option<Vec<String>>,
}

/// The language a plugin is written in.
#[derive(Clone, Copy, Debug, PartialEq, Eq, Structural)]
pub enum ScriptLanguage {
    Lua,
    JavaScript,
    Python,
}

impl ScriptLanguage {
    /// The name under which a manifest writes the language: lower case.
    pub open spec fn spec_name(self) -> Seq<char> {
        match self {
            ScriptLanguage::Lua => "lua"@,
            ScriptLanguage::JavaScript => "javascript"@,
            ScriptLanguage::Python => "python"@,
        }
    }

    /// The language that a manifest writes as `name`.
    pub open spec fn spec_from_name(name: Seq<char>) -> Option<ScriptLanguage> {
        if name == "lua"@ {
            Some(ScriptLanguage::Lua)
        } else if name == "javascript"@ {
            Some(ScriptLanguage::JavaScript)
        } else if name == "python"@ {
            Some(ScriptLanguage::Python)
        } else {
            None
        }
    }

    pub fn name(&self) -> (r: &'static str)
        ensures
            r@ == self.spec_name(),
    {
        match self {
            ScriptLanguage::Lua => "lua",
            ScriptLanguage::JavaScript => "javascript",
            ScriptLanguage::Python => "python",
        }
    }

    pub fn from_name(name: &str) -> (r: Option<ScriptLanguage>)
        ensures
            r == Self::spec_from_name(name@),
    {
        if str_equal(name, "lua") {
            Some(ScriptLanguage::Lua)
        } else if str_equal(name, "javascript") {
            Some(ScriptLanguage::JavaScript)
        } else if str_equal(name, "python") {
            Some(ScriptLanguage::Python)
        } else {
            None
        }
    }
}

/// A language is read back from the name it is written under.
pub proof fn lemma_language_name_round_trip(language: ScriptLanguage)
    ensures
        ScriptLanguage::spec_from_name(language.spec_name()) == Some(language),
{
    reveal_strlit("lua");
    reveal_strlit("javascript");
    reveal_strlit("python");
    assert("lua"@.len() != "javascript"@.len());
    assert("lua"@.len() != "python"@.len());
    assert("javascript"@.len() != "python"@.len());
}

} // verus!
