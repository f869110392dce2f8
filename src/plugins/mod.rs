//! The plugin boundary: metadata that each plugin reports, the trait that
//! plugins implement, and the capability names. Loading libraries is the
//! host's work.
use vstd::prelude::*;
use vstd::string::*;
use crate::error::Error;
use crate::text::str_eq;
use crate::path::{extension_of, file_name, file_name_of, split_extension};

pub mod api;

verus! {

/// The plugin interface version that this engine speaks.
pub const PLUGIN_API_VERSION: u32 = 1;

#[derive(Clone, Debug)]
pub struct PluginMetadata {
    pub name: String,
    pub version: String,
    pub description: String,
    pub author: String,
    pub api_version: u32,
    pub capabilities: Vec<String>,
}

/// What a plugin implements.
pub trait Plugin {
    fn metadata(&self) -> PluginMetadata;

    fn initialize(&mut self) -> Result<(), Error>;

    fn shutdown(&mut self) -> Result<(), Error>;
}

/// Whether a path names a plugin library: its extension is `so`.
pub open spec fn is_plugin_path(p: Seq<char>) -> bool {
    match file_name_of(p) {
        Some(n) => extension_of(n) == Some("so"@),
        None => false,
    }
}

/// Whether `path` names a plugin library by its extension.
pub fn has_plugin_extension(path: &str) -> (r: bool)
    ensures
        r == is_plugin_path(path@),
{
    match file_name(path) {
        Some(n) => {
            let (_, ext) = split_extension(n.as_str());
            match ext {
                Some(e) => str_eq(e.as_str(), "so"),
                None => false,
            }
        },
        None => false,
    }
}

#[derive(Clone, Copy, Debug, PartialEq, Eq, Structural)]
pub enum PluginCapability {
    FilePreview,
    ContextMenu,
    FileOverlay,
    CustomColumn,
    SearchProvider,
}

/// The name of a capability.
pub open spec fn capability_name(c: PluginCapability) -> Seq<char> {
    match c {
        PluginCapability::FilePreview => "file_preview"@,
        PluginCapability::ContextMenu => "context_menu"@,
        PluginCapability::FileOverlay => "file_overlay"@,
        PluginCapability::CustomColumn => "custom_column"@,
        PluginCapability::SearchProvider => "search_provider"@,
    }
}

impl PluginCapability {
    pub fn as_str(&self) -> (r: &'static str)
        ensures
            r@ == capability_name(*self),
    {
        match self {
            PluginCapability::FilePreview => "file_preview",
            PluginCapability::ContextMenu => "context_menu",
            PluginCapability::FileOverlay => "file_overlay",
            PluginCapability::CustomColumn => "custom_column",
            PluginCapability::SearchProvider => "search_provider",
        }
    }

    /// The capability with the name `s`, if any.
    pub fn from_str(s: &str) -> (r: Option<PluginCapability>)
        ensures
            r matches Some(c) ==> capability_name(c) == s@,
            r is None ==> forall|c: PluginCapability| capability_name(c) != s@,
    {
        if str_eq(s, "file_preview") {
            Some(PluginCapability::FilePreview)
        } else if str_eq(s, "context_menu") {
            Some(PluginCapability::ContextMenu)
        } else if str_eq(s, "file_overlay") {
            Some(PluginCapability::FileOverlay)
        } else if str_eq(s, "custom_column") {
            Some(PluginCapability::CustomColumn)
        } else if str_eq(s, "search_provider") {
            Some(PluginCapability::SearchProvider)
        } else {
            None
        }
    }
}

/// Distinct capabilities have distinct names, so reading a capability back
/// from its name gives that capability.
pub proof fn lemma_capability_names_distinct(a: PluginCapability, b: PluginCapability)
    ensures
        capability_name(a) == capability_name(b) ==> a == b,
{
    reveal_strlit("file_preview");
    reveal_strlit("context_menu");
    reveal_strlit("file_overlay");
    reveal_strlit("custom_column");
    reveal_strlit("search_provider");
    if a != b {
        assert(capability_name(a) != capability_name(b)) by {
            let x = capability_name(a);
            let y = capability_name(b);
            if x.len() == y.len() {
                assert(x[0] != y[0] || x[5] != y[5]);
            }
        }
    }
}

} // verus!
