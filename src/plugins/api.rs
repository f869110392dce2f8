//! The records exchanged with plugins.
use vstd::prelude::*;

verus! {

pub const API_VERSION: u32 = 1;

#[derive(Clone, Copy, Debug, PartialEq, Eq, Structural)]
pub enum Capability {
    FilePreview,
    ContextMenu,
    FileOverlay,
    CustomColumn,
    SearchProvider,
}

#[derive(Clone, Debug)]
pub struct PluginInfo {
    pub api_version: u32,
    pub name: String,
    pub version: String,
    pub description: String,
    pub author: String,
    pub capabilities: Vec<Capability>,
}

#[derive(Clone, Debug)]
pub struct FileContext {
    pub path: String,
    pub is_directory: bool,
    pub size: u64,
    pub mime_type: String,
    pub permissions: u32,
}

#[derive(Clone, Debug)]
pub struct PreviewRequest {
    pub file: FileContext,
    pub max_width: u32,
    pub max_height: u32,
}

#[derive(Clone, Debug)]
pub enum PreviewContent {
    Text(String),
    Image(Vec<u8>),
    Html(String),
    /// No preview.
    Empty,
}

#[derive(Clone, Debug)]
pub struct PreviewResponse {
    pub content: PreviewContent,
    pub cacheable: bool,
}

#[derive(Clone, Debug)]
pub struct MenuItem {
    pub label: String,
    pub action: String,
    pub icon: Option<String>,
    pub enabled: bool,
    pub separator_after: bool,
}

#[derive(Clone, Debug)]
pub struct ContextMenuRequest {
    pub files: Vec<FileContext>,
    pub current_directory: String,
}

#[derive(Clone, Debug)]
pub struct ContextMenuResponse {
    pub items: Vec<MenuItem>,
}

#[derive(Clone, Debug)]
pub struct OverlayRequest {
    pub file: FileContext,
}

#[derive(Clone, Debug)]
pub struct OverlayResponse {
    pub icon: Option<String>,
    pub badge_text: Option<String>,
    pub badge_color: Option<String>,
}

#[derive(Clone, Debug)]
pub struct ColumnDefinition {
    pub id: String,
    pub label: String,
    pub width: u32,
    pub sortable: bool,
}

#[derive(Clone, Debug)]
pub struct ColumnValueRequest {
    pub file: FileContext,
    pub column_id: String,
}

#[derive(Clone, Debug)]
pub struct ColumnValueResponse {
    pub value: String,
}

#[derive(Clone, Debug)]
pub struct SearchRequest {
    pub query: String,
    pub directory: String,
    pub max_results: usize,
}

} // verus!
