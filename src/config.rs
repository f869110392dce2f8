//! The settings model. Reading and writing the settings file is the host's
//! work.
use vstd::prelude::*;
use vstd::string::*;

verus! {

#[derive(Clone, Copy, Debug, PartialEq, Eq, Structural)]
pub enum Theme {
    Auto,
    Dark,
    Light,
}

#[derive(Clone, Copy, Debug, PartialEq, Eq, Structural)]
pub enum SortBy {
    Name,
    Size,
    Modified,
    Type,
}

#[derive(Clone, Copy, Debug, PartialEq, Eq, Structural)]
pub enum SortOrder {
    Ascending,
    Descending,
}

#[derive(Clone, Debug)]
pub struct UiConfig {
    pub theme: Theme,
    pub show_hidden: bool,
    pub dual_pane: bool,
    pub icon_size: u32,
    pub font_size: u32,
    pub confirm_delete: bool,
    pub confirm_trash: bool,
}

#[derive(Clone, Debug)]
pub struct NavigationConfig {
    pub follow_symlinks: bool,
    pub max_depth: usize,
    pub sort_by: SortBy,
    pub sort_order: SortOrder,
    pub group_directories: bool,
}

#[derive(Clone, Debug)]
pub struct PerformanceConfig {
    pub cache_size_mb: usize,
    pub thumbnail_cache_mb: usize,
    pub max_concurrent_ops: usize,
    pub debounce_ms: u64,
    pub large_dir_threshold: usize,
}

#[derive(Clone, Debug)]
pub struct KeyboardConfig {
    pub vim_mode: bool,
    pub command_palette: String,
    pub fuzzy_search: String,
    pub new_tab: String,
    pub close_tab: String,
    pub toggle_hidden: String,
    pub delete: String,
    pub trash: String,
}

#[derive(Clone, Debug)]
pub struct IntegrationsConfig {
    pub terminal: String,
    pub editor: String,
    pub archive_manager: String,
}

#[derive(Clone, Debug)]
pub struct PluginsConfig {
    pub enabled: Vec<String>,
    pub auto_update: bool,
}

#[derive(Clone, Debug)]
pub struct Config {
    pub ui: UiConfig,
    pub navigation: NavigationConfig,
    pub performance: PerformanceConfig,
    pub keyboard: KeyboardConfig,
    pub integrations: IntegrationsConfig,
    pub plugins: PluginsConfig,
}

impl Default for Config {
    fn default() -> (c: Config)
        ensures
            c.ui.theme == Theme::Auto,
            !c.ui.show_hidden,
            !c.ui.dual_pane,
            c.ui.icon_size == 24,
            c.ui.font_size == 10,
            c.ui.confirm_delete,
            !c.ui.confirm_trash,
            c.navigation.follow_symlinks,
            c.navigation.max_depth == 32,
            c.navigation.sort_by == SortBy::Name,
            c.navigation.sort_order == SortOrder::Ascending,
            c.navigation.group_directories,
            c.performance.cache_size_mb == 128,
            c.performance.thumbnail_cache_mb == 64,
            c.performance.max_concurrent_ops == 4,
            c.performance.debounce_ms == 150,
            c.performance.large_dir_threshold == 10000,
            c.keyboard.vim_mode,
            c.keyboard.command_palette@ == "Ctrl+P"@,
            c.keyboard.fuzzy_search@ == "Ctrl+F"@,
            c.keyboard.new_tab@ == "Ctrl+T"@,
            c.keyboard.close_tab@ == "Ctrl+W"@,
            c.keyboard.toggle_hidden@ == "Ctrl+H"@,
            c.keyboard.delete@ == "Delete"@,
            c.keyboard.trash@ == "Shift+Delete"@,
            c.integrations.terminal@ == "xfce4-terminal"@,
            c.integrations.editor@ == "$EDITOR"@,
            c.integrations.archive_manager@ == "xarchiver"@,
            c.plugins.enabled@.len() == 2,
            c.plugins.enabled@[0]@ == "git-overlay"@,
            c.plugins.enabled@[1]@ == "archive-preview"@,
            !c.plugins.auto_update,
    {
        let mut enabled: Vec<String> = Vec::new();
        enabled.push(String::from_str("git-overlay"));
        enabled.push(String::from_str("archive-preview"));
        Config {
            ui: UiConfig {
                theme: Theme::Auto,
                show_hidden: false,
                dual_pane: false,
                icon_size: 24,
                font_size: 10,
                confirm_delete: true,
                confirm_trash: false,
            },
            navigation: NavigationConfig {
                follow_symlinks: true,
                max_depth: 32,
                sort_by: SortBy::Name,
                sort_order: SortOrder::Ascending,
                group_directories: true,
            },
            performance: PerformanceConfig {
                cache_size_mb: 128,
                thumbnail_cache_mb: 64,
                max_concurrent_ops: 4,
                debounce_ms: 150,
                large_dir_threshold: 10000,
            },
            keyboard: KeyboardConfig {
                vim_mode: true,
                command_palette: String::from_str("Ctrl+P"),
                fuzzy_search: String::from_str("Ctrl+F"),
                new_tab: String::from_str("Ctrl+T"),
                close_tab: String::from_str("Ctrl+W"),
                toggle_hidden: String::from_str("Ctrl+H"),
                delete: String::from_str("Delete"),
                trash: String::from_str("Shift+Delete"),
            },
            integrations: IntegrationsConfig {
                terminal: String::from_str("xfce4-terminal"),
                editor: String::from_str("$EDITOR"),
                archive_manager: String::from_str("xarchiver"),
            },
            plugins: PluginsConfig { enabled, auto_update: false },
        }
    }
}

} // verus!
