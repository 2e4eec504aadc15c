//! The user's configuration and the state that is kept between sessions.

use vstd::prelude::*;

use crate::buffer::opt_text;
use crate::document::ViewDefaults;
use crate::event::KeybindingMode;
use crate::panels::texts;

verus! {

/// A text that a short trigger stands for.
#[derive(Debug)]
pub struct Snippet {
    /// The word that is replaced.
    pub trigger: String,
    /// What replaces it.
    pub expanded: String,
    /// Where the caret goes, in bytes from the start of the text.
    pub cursor_offset: usize,
}

/// The configuration.
#[derive(Debug)]
pub struct Config {
    pub ui_theme: Option<String>,
    /// The theme for the colors of the text.
    pub theme: Option<String>,
    pub markdown_view: Option<String>,
    pub csv_view: Option<String>,
    pub caret_animation: bool,
    pub keybinding_mode: KeybindingMode,
    pub project_tree_open: Option<bool>,
    pub recent_files: Vec<String>,
    pub auto_save: bool,
    pub auto_save_delay_ms: u64,
    pub auto_save_on_focus_change: bool,
    /// What new documents take over.
    pub document_defaults: ViewDefaults,
    pub snippets: Vec<Snippet>,
    pub window_width: Option<u32>,
    pub window_height: Option<u32>,
}

#[verifier::ext_equal]
pub struct ConfigV {
    pub ui_theme: Option<Seq<char>>,
    pub theme: Option<Seq<char>>,
    pub markdown_view: Option<Seq<char>>,
    pub csv_view: Option<Seq<char>>,
    pub caret_animation: bool,
    pub keybinding_mode: KeybindingMode,
    pub project_tree_open: Option<bool>,
    pub recent_files: Seq<Seq<char>>,
    pub auto_save: bool,
    pub auto_save_delay_ms: u64,
    pub auto_save_on_focus_change: bool,
    pub document_defaults: ViewDefaults,
    pub snippets: Seq<Snippet>,
    pub window_width: Option<u32>,
    pub window_height: Option<u32>,
}

impl View for Config {
    type V = ConfigV;

    open spec fn view(&self) -> ConfigV {
        ConfigV {
            ui_theme: opt_text(self.ui_theme),
            theme: opt_text(self.theme),
            markdown_view: opt_text(self.markdown_view),
            csv_view: opt_text(self.csv_view),
            caret_animation: self.caret_animation,
            keybinding_mode: self.keybinding_mode,
            project_tree_open: self.project_tree_open,
            recent_files: texts(self.recent_files@),
            auto_save: self.auto_save,
            auto_save_delay_ms: self.auto_save_delay_ms,
            auto_save_on_focus_change: self.auto_save_on_focus_change,
            document_defaults: self.document_defaults,
            snippets: self.snippets@,
            window_width: self.window_width,
            window_height: self.window_height,
        }
    }
}

/// The configuration of a first start.
pub open spec fn default_config() -> ConfigV {
    ConfigV {
        ui_theme: None,
        theme: None,
        markdown_view: None,
        csv_view: None,
        caret_animation: false,
        keybinding_mode: KeybindingMode::Standard,
        project_tree_open: None,
        recent_files: seq![],
        auto_save: true,
        auto_save_delay_ms: 1000,
        auto_save_on_focus_change: false,
        document_defaults: ViewDefaults {
            use_spaces: true,
            tab_width: 4,
            soft_wrap: false,
            git_blame_enabled: false,
        },
        snippets: seq![],
        window_width: None,
        window_height: None,
    }
}

impl Default for Config {
    fn default() -> (r: Config)
        ensures
            r@ == default_config(),
    {
        let r = Config {
            ui_theme: None,
            theme: None,
            markdown_view: None,
            csv_view: None,
            caret_animation: false,
            keybinding_mode: KeybindingMode::Standard,
            project_tree_open: None,
            recent_files: Vec::new(),
            auto_save: true,
            auto_save_delay_ms: 1000,
            auto_save_on_focus_change: false,
            document_defaults: ViewDefaults {
                use_spaces: true,
                tab_width: 4,
                soft_wrap: false,
                git_blame_enabled: false,
            },
            snippets: Vec::new(),
            window_width: None,
            window_height: None,
        };
        assert(r@ =~= default_config());
        r
    }
}

} // verus!
