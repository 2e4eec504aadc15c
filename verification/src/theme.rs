//! Color themes of the graphical frontend.
//!
//! A theme is a complete palette. Colors are written as 0xRRGGBB.

use vstd::prelude::*;

use crate::text::chars_of;

verus! {

/// A complete palette for the editor surface and everything around it.
#[derive(Debug, Clone, Copy, PartialEq)]
pub struct GuiTheme {
    pub name: &'static str,
    pub is_dark: bool,
    // Editor surface
    pub editor_bg: u32,
    pub text: u32,
    pub caret: u32,
    pub line_highlight: u32,
    pub selection_bg: u32,
    // Gutter
    pub gutter_bg: u32,
    pub gutter_text: u32,
    pub line_number_active: u32,
    // Chrome panels
    pub panel_bg: u32,
    pub panel_text: u32,
    pub dim_text: u32,
    pub status_bg: u32,
    pub status_text: u32,
    pub sidebar_bg: u32,
    // Accents
    pub accent: u32,
    pub accent_text: u32,
    pub accent_hover: u32,
    pub error: u32,
    pub warning: u32,
    // Widgets
    pub button_bg: u32,
    pub button_text: u32,
    pub input_bg: u32,
    pub border: u32,
    pub separator: u32,
    pub indent_guide: u32,
    // Popups and floating windows
    pub popup_bg: u32,
    pub popup_border: u32,
    // Matches of a search
    pub match_current: u32,
    pub match_current_text: u32,
    pub match_other: u32,
    pub match_other_text: u32,
    // Selected list rows
    pub selected_bg: u32,
    // Git gutter
    pub git_added: u32,
    pub git_modified: u32,
    pub git_deleted: u32,
}

/// Modern dark editor chrome.
pub open spec fn dark_palette() -> GuiTheme {
    GuiTheme {
        name: "Dark",
        is_dark: true,
        editor_bg: 0x1e1e1e,
        text: 0xdcdcdc,
        caret: 0xc8c8c8,
        line_highlight: 0x2d2d30,
        selection_bg: 0x3c64a0,
        gutter_bg: 0x252526,
        gutter_text: 0x646464,
        line_number_active: 0xc8c8c8,
        panel_bg: 0x2d2d30,
        panel_text: 0xc8c8c8,
        dim_text: 0x969696,
        status_bg: 0x2d2d30,
        status_text: 0xc8c8c8,
        sidebar_bg: 0x28282a,
        accent: 0x3c82dc,
        accent_text: 0x000000,
        accent_hover: 0x509bfa,
        error: 0xe65a5a,
        warning: 0xe6be50,
        button_bg: 0x414144,
        button_text: 0xe6e6e6,
        input_bg: 0x37373a,
        border: 0x505050,
        separator: 0x464646,
        indent_guide: 0x323237,
        popup_bg: 0x303033,
        popup_border: 0x555558,
        match_current: 0xc8a028,
        match_current_text: 0x000000,
        match_other: 0x786428,
        match_other_text: 0xffffff,
        selected_bg: 0x3c5a8c,
        git_added: 0x50b464,
        git_modified: 0xe6aa46,
        git_deleted: 0xe65a5a,
    }
}

fn dark() -> (r: GuiTheme)
    ensures
        r == dark_palette(),
{
    GuiTheme {
        name: "Dark",
        is_dark: true,
        editor_bg: 0x1e1e1e,
        text: 0xdcdcdc,
        caret: 0xc8c8c8,
        line_highlight: 0x2d2d30,
        selection_bg: 0x3c64a0,
        gutter_bg: 0x252526,
        gutter_text: 0x646464,
        line_number_active: 0xc8c8c8,
        panel_bg: 0x2d2d30,
        panel_text: 0xc8c8c8,
        dim_text: 0x969696,
        status_bg: 0x2d2d30,
        status_text: 0xc8c8c8,
        sidebar_bg: 0x28282a,
        accent: 0x3c82dc,
        accent_text: 0x000000,
        accent_hover: 0x509bfa,
        error: 0xe65a5a,
        warning: 0xe6be50,
        button_bg: 0x414144,
        button_text: 0xe6e6e6,
        input_bg: 0x37373a,
        border: 0x505050,
        separator: 0x464646,
        indent_guide: 0x323237,
        popup_bg: 0x303033,
        popup_border: 0x555558,
        match_current: 0xc8a028,
        match_current_text: 0x000000,
        match_other: 0x786428,
        match_other_text: 0xffffff,
        selected_bg: 0x3c5a8c,
        git_added: 0x50b464,
        git_modified: 0xe6aa46,
        git_deleted: 0xe65a5a,
    }
}

/// Cool dark grays with a blue accent.
pub open spec fn one_dark_palette() -> GuiTheme {
    GuiTheme {
        name: "One Dark",
        is_dark: true,
        editor_bg: 0x282c34,
        text: 0xabb2bf,
        caret: 0x528bff,
        line_highlight: 0x2c313a,
        selection_bg: 0x3e4451,
        gutter_bg: 0x282c34,
        gutter_text: 0x5b6373,
        line_number_active: 0xabb2bf,
        panel_bg: 0x21252b,
        panel_text: 0xabb2bf,
        dim_text: 0x6c7587,
        status_bg: 0x21252b,
        status_text: 0xabb2bf,
        sidebar_bg: 0x252930,
        accent: 0x528bff,
        accent_text: 0x14181e,
        accent_hover: 0x689dff,
        error: 0xe06c75,
        warning: 0xe5c07b,
        button_bg: 0x353b45,
        button_text: 0xcacfd8,
        input_bg: 0x1e2127,
        border: 0x3e4451,
        separator: 0x323741,
        indent_guide: 0x30353f,
        popup_bg: 0x2c313a,
        popup_border: 0x454c5a,
        match_current: 0xe5c07b,
        match_current_text: 0x282c34,
        match_other: 0x685832,
        match_other_text: 0xffffff,
        selected_bg: 0x3e4451,
        git_added: 0x98c379,
        git_modified: 0xe5c07b,
        git_deleted: 0xe06c75,
    }
}

fn one_dark() -> (r: GuiTheme)
    ensures
        r == one_dark_palette(),
{
    GuiTheme {
        name: "One Dark",
        is_dark: true,
        editor_bg: 0x282c34,
        text: 0xabb2bf,
        caret: 0x528bff,
        line_highlight: 0x2c313a,
        selection_bg: 0x3e4451,
        gutter_bg: 0x282c34,
        gutter_text: 0x5b6373,
        line_number_active: 0xabb2bf,
        panel_bg: 0x21252b,
        panel_text: 0xabb2bf,
        dim_text: 0x6c7587,
        status_bg: 0x21252b,
        status_text: 0xabb2bf,
        sidebar_bg: 0x252930,
        accent: 0x528bff,
        accent_text: 0x14181e,
        accent_hover: 0x689dff,
        error: 0xe06c75,
        warning: 0xe5c07b,
        button_bg: 0x353b45,
        button_text: 0xcacfd8,
        input_bg: 0x1e2127,
        border: 0x3e4451,
        separator: 0x323741,
        indent_guide: 0x30353f,
        popup_bg: 0x2c313a,
        popup_border: 0x454c5a,
        match_current: 0xe5c07b,
        match_current_text: 0x282c34,
        match_other: 0x685832,
        match_other_text: 0xffffff,
        selected_bg: 0x3e4451,
        git_added: 0x98c379,
        git_modified: 0xe5c07b,
        git_deleted: 0xe06c75,
    }
}

/// Deep blue night colors.
pub open spec fn fjord_night_palette() -> GuiTheme {
    GuiTheme {
        name: "Fjord Night",
        is_dark: true,
        editor_bg: 0x1c212e,
        text: 0xd8dee9,
        caret: 0x88c0d0,
        line_highlight: 0x242a3a,
        selection_bg: 0x3b4c69,
        gutter_bg: 0x1f2533,
        gutter_text: 0x65708b,
        line_number_active: 0xe5e9f0,
        panel_bg: 0x232938,
        panel_text: 0xd8dee9,
        dim_text: 0x818fa6,
        status_bg: 0x272e3f,
        status_text: 0xd8dee9,
        sidebar_bg: 0x202634,
        accent: 0x5eafc9,
        accent_text: 0x181d28,
        accent_hover: 0x76c6df,
        error: 0xda7074,
        warning: 0xebcb8b,
        button_bg: 0x313a4f,
        button_text: 0xe5e9f0,
        input_bg: 0x191e2a,
        border: 0x414c65,
        separator: 0x353f54,
        indent_guide: 0x2b3345,
        popup_bg: 0x272e3f,
        popup_border: 0x4c5770,
        match_current: 0xebcb8b,
        match_current_text: 0x1c212e,
        match_other: 0x5c523e,
        match_other_text: 0xe5e9f0,
        selected_bg: 0x3b4c69,
        git_added: 0xa3be8c,
        git_modified: 0xebcb8b,
        git_deleted: 0xda7074,
    }
}

fn fjord_night() -> (r: GuiTheme)
    ensures
        r == fjord_night_palette(),
{
    GuiTheme {
        name: "Fjord Night",
        is_dark: true,
        editor_bg: 0x1c212e,
        text: 0xd8dee9,
        caret: 0x88c0d0,
        line_highlight: 0x242a3a,
        selection_bg: 0x3b4c69,
        gutter_bg: 0x1f2533,
        gutter_text: 0x65708b,
        line_number_active: 0xe5e9f0,
        panel_bg: 0x232938,
        panel_text: 0xd8dee9,
        dim_text: 0x818fa6,
        status_bg: 0x272e3f,
        status_text: 0xd8dee9,
        sidebar_bg: 0x202634,
        accent: 0x5eafc9,
        accent_text: 0x181d28,
        accent_hover: 0x76c6df,
        error: 0xda7074,
        warning: 0xebcb8b,
        button_bg: 0x313a4f,
        button_text: 0xe5e9f0,
        input_bg: 0x191e2a,
        border: 0x414c65,
        separator: 0x353f54,
        indent_guide: 0x2b3345,
        popup_bg: 0x272e3f,
        popup_border: 0x4c5770,
        match_current: 0xebcb8b,
        match_current_text: 0x1c212e,
        match_other: 0x5c523e,
        match_other_text: 0xe5e9f0,
        selected_bg: 0x3b4c69,
        git_added: 0xa3be8c,
        git_modified: 0xebcb8b,
        git_deleted: 0xda7074,
    }
}

/// Dark violet colors.
pub open spec fn aubergine_palette() -> GuiTheme {
    GuiTheme {
        name: "Aubergine",
        is_dark: true,
        editor_bg: 0x231b2b,
        text: 0xede6f4,
        caret: 0xddaaff,
        line_highlight: 0x30253a,
        selection_bg: 0x5b3e6f,
        gutter_bg: 0x281f31,
        gutter_text: 0x846f91,
        line_number_active: 0xf5eefa,
        panel_bg: 0x2e2338,
        panel_text: 0xe8deef,
        dim_text: 0x9c84a9,
        status_bg: 0x34273e,
        status_text: 0xe8deef,
        sidebar_bg: 0x291f32,
        accent: 0xbe75e2,
        accent_text: 0x231b2b,
        accent_hover: 0xd391f1,
        error: 0xf47090,
        warning: 0xf4be6a,
        button_bg: 0x443250,
        button_text: 0xf0e8f6,
        input_bg: 0x1f1726,
        border: 0x5b4369,
        separator: 0x453351,
        indent_guide: 0x372942,
        popup_bg: 0x32263c,
        popup_border: 0x634872,
        match_current: 0xf4be6a,
        match_current_text: 0x231b2b,
        match_other: 0x69494f,
        match_other_text: 0xffffff,
        selected_bg: 0x5b3e6f,
        git_added: 0x85d699,
        git_modified: 0xf4be6a,
        git_deleted: 0xf47090,
    }
}

fn aubergine() -> (r: GuiTheme)
    ensures
        r == aubergine_palette(),
{
    GuiTheme {
        name: "Aubergine",
        is_dark: true,
        editor_bg: 0x231b2b,
        text: 0xede6f4,
        caret: 0xddaaff,
        line_highlight: 0x30253a,
        selection_bg: 0x5b3e6f,
        gutter_bg: 0x281f31,
        gutter_text: 0x846f91,
        line_number_active: 0xf5eefa,
        panel_bg: 0x2e2338,
        panel_text: 0xe8deef,
        dim_text: 0x9c84a9,
        status_bg: 0x34273e,
        status_text: 0xe8deef,
        sidebar_bg: 0x291f32,
        accent: 0xbe75e2,
        accent_text: 0x231b2b,
        accent_hover: 0xd391f1,
        error: 0xf47090,
        warning: 0xf4be6a,
        button_bg: 0x443250,
        button_text: 0xf0e8f6,
        input_bg: 0x1f1726,
        border: 0x5b4369,
        separator: 0x453351,
        indent_guide: 0x372942,
        popup_bg: 0x32263c,
        popup_border: 0x634872,
        match_current: 0xf4be6a,
        match_current_text: 0x231b2b,
        match_other: 0x69494f,
        match_other_text: 0xffffff,
        selected_bg: 0x5b3e6f,
        git_added: 0x85d699,
        git_modified: 0xf4be6a,
        git_deleted: 0xf47090,
    }
}

/// Warm light colors.
pub open spec fn sandstone_palette() -> GuiTheme {
    GuiTheme {
        name: "Sandstone",
        is_dark: false,
        editor_bg: 0xfaf6eb,
        text: 0x433d34,
        caret: 0xa04c33,
        line_highlight: 0xf3edde,
        selection_bg: 0xdccda9,
        gutter_bg: 0xf6f1e5,
        gutter_text: 0x978b76,
        line_number_active: 0x564b3e,
        panel_bg: 0xefe8d8,
        panel_text: 0x4b4338,
        dim_text: 0x897c69,
        status_bg: 0xebe2d0,
        status_text: 0x4b4338,
        sidebar_bg: 0xf3ede0,
        accent: 0xae5237,
        accent_text: 0xffffff,
        accent_hover: 0xb4583d,
        error: 0xb83f3f,
        warning: 0xaa7423,
        button_bg: 0xe5dbc6,
        button_text: 0x453d33,
        input_bg: 0xfffcf4,
        border: 0xcfc3ac,
        separator: 0xdbd1bd,
        indent_guide: 0xe8e0cf,
        popup_bg: 0xfaf6eb,
        popup_border: 0xc7baa2,
        match_current: 0xebb858,
        match_current_text: 0x352f27,
        match_other: 0xe8d7a3,
        match_other_text: 0x352f27,
        selected_bg: 0xdccda9,
        git_added: 0x4e894f,
        git_modified: 0xb37720,
        git_deleted: 0xb83f3f,
    }
}

fn sandstone() -> (r: GuiTheme)
    ensures
        r == sandstone_palette(),
{
    GuiTheme {
        name: "Sandstone",
        is_dark: false,
        editor_bg: 0xfaf6eb,
        text: 0x433d34,
        caret: 0xa04c33,
        line_highlight: 0xf3edde,
        selection_bg: 0xdccda9,
        gutter_bg: 0xf6f1e5,
        gutter_text: 0x978b76,
        line_number_active: 0x564b3e,
        panel_bg: 0xefe8d8,
        panel_text: 0x4b4338,
        dim_text: 0x897c69,
        status_bg: 0xebe2d0,
        status_text: 0x4b4338,
        sidebar_bg: 0xf3ede0,
        accent: 0xae5237,
        accent_text: 0xffffff,
        accent_hover: 0xb4583d,
        error: 0xb83f3f,
        warning: 0xaa7423,
        button_bg: 0xe5dbc6,
        button_text: 0x453d33,
        input_bg: 0xfffcf4,
        border: 0xcfc3ac,
        separator: 0xdbd1bd,
        indent_guide: 0xe8e0cf,
        popup_bg: 0xfaf6eb,
        popup_border: 0xc7baa2,
        match_current: 0xebb858,
        match_current_text: 0x352f27,
        match_other: 0xe8d7a3,
        match_other_text: 0x352f27,
        selected_bg: 0xdccda9,
        git_added: 0x4e894f,
        git_modified: 0xb37720,
        git_deleted: 0xb83f3f,
    }
}

/// Black and white with saturated accents.
pub open spec fn high_contrast_palette() -> GuiTheme {
    GuiTheme {
        name: "High Contrast",
        is_dark: true,
        editor_bg: 0x000000,
        text: 0xffffff,
        caret: 0x00ffff,
        line_highlight: 0x181818,
        selection_bg: 0x005091,
        gutter_bg: 0x000000,
        gutter_text: 0xb4b4b4,
        line_number_active: 0xffffff,
        panel_bg: 0x0c0c0c,
        panel_text: 0xffffff,
        dim_text: 0xbebebe,
        status_bg: 0x002d50,
        status_text: 0xffffff,
        sidebar_bg: 0x080808,
        accent: 0x00aaff,
        accent_text: 0x000000,
        accent_hover: 0x46cdff,
        error: 0xff5a5a,
        warning: 0xffdc46,
        button_bg: 0x1e1e1e,
        button_text: 0xffffff,
        input_bg: 0x000000,
        border: 0xffffff,
        separator: 0x969696,
        indent_guide: 0x505050,
        popup_bg: 0x000000,
        popup_border: 0xffffff,
        match_current: 0xffff00,
        match_current_text: 0x000000,
        match_other: 0x786400,
        match_other_text: 0xffffff,
        selected_bg: 0x005091,
        git_added: 0x46ff64,
        git_modified: 0xffff00,
        git_deleted: 0xff5a5a,
    }
}

fn high_contrast() -> (r: GuiTheme)
    ensures
        r == high_contrast_palette(),
{
    GuiTheme {
        name: "High Contrast",
        is_dark: true,
        editor_bg: 0x000000,
        text: 0xffffff,
        caret: 0x00ffff,
        line_highlight: 0x181818,
        selection_bg: 0x005091,
        gutter_bg: 0x000000,
        gutter_text: 0xb4b4b4,
        line_number_active: 0xffffff,
        panel_bg: 0x0c0c0c,
        panel_text: 0xffffff,
        dim_text: 0xbebebe,
        status_bg: 0x002d50,
        status_text: 0xffffff,
        sidebar_bg: 0x080808,
        accent: 0x00aaff,
        accent_text: 0x000000,
        accent_hover: 0x46cdff,
        error: 0xff5a5a,
        warning: 0xffdc46,
        button_bg: 0x1e1e1e,
        button_text: 0xffffff,
        input_bg: 0x000000,
        border: 0xffffff,
        separator: 0x969696,
        indent_guide: 0x505050,
        popup_bg: 0x000000,
        popup_border: 0xffffff,
        match_current: 0xffff00,
        match_current_text: 0x000000,
        match_other: 0x786400,
        match_other_text: 0xffffff,
        selected_bg: 0x005091,
        git_added: 0x46ff64,
        git_modified: 0xffff00,
        git_deleted: 0xff5a5a,
    }
}

/// Clean light editor chrome.
pub open spec fn light_palette() -> GuiTheme {
    GuiTheme {
        name: "Light",
        is_dark: false,
        editor_bg: 0xffffff,
        text: 0x282828,
        caret: 0x282828,
        line_highlight: 0xf5f5f5,
        selection_bg: 0xaad2fa,
        gutter_bg: 0xfafafa,
        gutter_text: 0x828282,
        line_number_active: 0x505050,
        panel_bg: 0xf5f5f5,
        panel_text: 0x3c3c3c,
        dim_text: 0x787878,
        status_bg: 0xf5f5f5,
        status_text: 0x3c3c3c,
        sidebar_bg: 0xf5f5f5,
        accent: 0x2864c8,
        accent_text: 0xffffff,
        accent_hover: 0x2d69cd,
        error: 0xc83c3c,
        warning: 0xc89628,
        button_bg: 0xebebeb,
        button_text: 0x323232,
        input_bg: 0xffffff,
        border: 0xc8c8c8,
        separator: 0xdcdcdc,
        indent_guide: 0xebebeb,
        popup_bg: 0xfafafa,
        popup_border: 0xc8c8c8,
        match_current: 0xf0b43c,
        match_current_text: 0x000000,
        match_other: 0xd2b46e,
        match_other_text: 0x000000,
        selected_bg: 0xc8dcfa,
        git_added: 0x289646,
        git_modified: 0xd28c1e,
        git_deleted: 0xd23c3c,
    }
}

fn light() -> (r: GuiTheme)
    ensures
        r == light_palette(),
{
    GuiTheme {
        name: "Light",
        is_dark: false,
        editor_bg: 0xffffff,
        text: 0x282828,
        caret: 0x282828,
        line_highlight: 0xf5f5f5,
        selection_bg: 0xaad2fa,
        gutter_bg: 0xfafafa,
        gutter_text: 0x828282,
        line_number_active: 0x505050,
        panel_bg: 0xf5f5f5,
        panel_text: 0x3c3c3c,
        dim_text: 0x787878,
        status_bg: 0xf5f5f5,
        status_text: 0x3c3c3c,
        sidebar_bg: 0xf5f5f5,
        accent: 0x2864c8,
        accent_text: 0xffffff,
        accent_hover: 0x2d69cd,
        error: 0xc83c3c,
        warning: 0xc89628,
        button_bg: 0xebebeb,
        button_text: 0x323232,
        input_bg: 0xffffff,
        border: 0xc8c8c8,
        separator: 0xdcdcdc,
        indent_guide: 0xebebeb,
        popup_bg: 0xfafafa,
        popup_border: 0xc8c8c8,
        match_current: 0xf0b43c,
        match_current_text: 0x000000,
        match_other: 0xd2b46e,
        match_other_text: 0x000000,
        selected_bg: 0xc8dcfa,
        git_added: 0x289646,
        git_modified: 0xd28c1e,
        git_deleted: 0xd23c3c,
    }
}

/// All built-in themes, in the order in which they are offered.
pub open spec fn all_themes() -> Seq<GuiTheme> {
    seq![
        dark_palette(),
        one_dark_palette(),
        fjord_night_palette(),
        aubergine_palette(),
        sandstone_palette(),
        high_contrast_palette(),
        light_palette(),
    ]
}

/// An ASCII capital as its small letter; other characters as they are.
pub open spec fn ascii_lower(c: char) -> char {
    if 'A' <= c <= 'Z' { (c as u32 + 32) as char } else { c }
}

/// Two texts that differ at most in the case of ASCII letters.
pub open spec fn same_ignoring_case(a: Seq<char>, b: Seq<char>) -> bool {
    a.len() == b.len() && forall|i: int|
        0 <= i < a.len() ==> ascii_lower(#[trigger] a[i]) == ascii_lower(b[i])
}

/// The first theme of `themes` with this name.
pub open spec fn find_theme(themes: Seq<GuiTheme>, name: Seq<char>) -> Option<GuiTheme>
    decreases themes.len(),
{
    if themes.len() == 0 {
        None
    } else if same_ignoring_case(themes[0].name@, name) {
        Some(themes[0])
    } else {
        find_theme(themes.drop_first(), name)
    }
}

fn to_lower(c: char) -> (r: char)
    ensures
        r == ascii_lower(c),
{
    if 'A' <= c && c <= 'Z' {
        (c as u8 + 32) as char
    } else {
        c
    }
}

fn equal_ignoring_case(a: &str, b: &str) -> (r: bool)
    ensures
        r == same_ignoring_case(a@, b@),
{
    let x: Vec<char> = chars_of(a);
    let y: Vec<char> = chars_of(b);
    if x.len() != y.len() {
        return false;
    }
    let mut i: usize = 0;
    while i < x.len()
        invariant
            i <= x.len() == y.len(),
            x@ == a@,
            y@ == b@,
            forall|k: int| 0 <= k < i ==> ascii_lower(#[trigger] a@[k]) == ascii_lower(b@[k]),
        decreases x.len() - i,
    {
        if to_lower(x[i]) != to_lower(y[i]) {
            assert(ascii_lower(a@[i as int]) != ascii_lower(b@[i as int]));
            return false;
        }
        i += 1;
    }
    true
}

impl GuiTheme {
    /// All built-in themes.
    pub fn all() -> (r: Vec<GuiTheme>)
        ensures
            r@ == all_themes(),
    {
        let mut r: Vec<GuiTheme> = Vec::new();
        r.push(dark());
        r.push(one_dark());
        r.push(fjord_night());
        r.push(aubergine());
        r.push(sandstone());
        r.push(high_contrast());
        r.push(light());
        assert(r@ =~= all_themes());
        r
    }

    /// The theme that is used where none is chosen.
    pub fn default_dark() -> (r: GuiTheme)
        ensures
            r == dark_palette(),
    {
        dark()
    }

    /// Look up a built-in theme by its name, in any case.
    pub fn by_name(name: &str) -> (r: Option<GuiTheme>)
        ensures
            r == find_theme(all_themes(), name@),
    {
        let themes: Vec<GuiTheme> = GuiTheme::all();
        let mut i: usize = 0;
        assert(themes@.skip(0) =~= themes@);
        while i < themes.len()
            invariant
                i <= themes.len(),
                themes@ == all_themes(),
                find_theme(themes@.skip(i as int), name@) == find_theme(all_themes(), name@),
            decreases themes.len() - i,
        {
            assert(themes@.skip(i as int)[0] == themes@[i as int]);
            assert(themes@.skip(i as int).drop_first() =~= themes@.skip(i + 1));
            if equal_ignoring_case(themes[i].name, name) {
                return Some(themes[i]);
            }
            i += 1;
        }
        None
    }
}

/// The names of the themes tell them apart even where case is ignored.
proof fn lemma_names_differ(i: int, j: int)
    requires
        0 <= i < j < all_themes().len(),
    ensures
        !same_ignoring_case(all_themes()[i].name@, all_themes()[j].name@),
{
    reveal_strlit("Dark");
    reveal_strlit("One Dark");
    reveal_strlit("Fjord Night");
    reveal_strlit("Aubergine");
    reveal_strlit("Sandstone");
    reveal_strlit("High Contrast");
    reveal_strlit("Light");
    let a = all_themes()[i].name@;
    let b = all_themes()[j].name@;
    if a.len() == b.len() {
        assert(ascii_lower(a[0]) != ascii_lower(b[0]));
    }
}

proof fn lemma_find_theme(themes: Seq<GuiTheme>, i: int)
    requires
        0 <= i < themes.len(),
        forall|k: int| 0 <= k < i ==> !same_ignoring_case(
            (#[trigger] themes[k]).name@,
            themes[i].name@,
        ),
    ensures
        find_theme(themes, themes[i].name@) == Some(themes[i]),
    decreases i,
{
    if i > 0 {
        assert(!same_ignoring_case(themes[0].name@, themes[i].name@));
        let rest = themes.drop_first();
        assert forall|k: int| 0 <= k < i - 1 implies !same_ignoring_case(
            (#[trigger] rest[k]).name@,
            rest[i - 1].name@,
        ) by {
            assert(rest[k] == themes[k + 1]);
        }
        lemma_find_theme(rest, i - 1);
    }
}

/// Law: every built-in theme is found by its own name, and no two share one.
pub proof fn law_themes_are_found_by_name(i: int)
    requires
        0 <= i < all_themes().len(),
    ensures
        find_theme(all_themes(), all_themes()[i].name@) == Some(all_themes()[i]),
        forall|j: int|
            0 <= j < all_themes().len() && j != i ==> (#[trigger] all_themes()[j]).name@
                != all_themes()[i].name@,
{
    assert forall|j: int| 0 <= j < all_themes().len() && j != i implies !same_ignoring_case(
        (#[trigger] all_themes()[j]).name@,
        all_themes()[i].name@,
    ) by {
        if j < i {
            lemma_names_differ(j, i);
        } else {
            lemma_names_differ(i, j);
            if same_ignoring_case(all_themes()[j].name@, all_themes()[i].name@) {
                let a = all_themes()[i].name@;
                let b = all_themes()[j].name@;
                assert forall|k: int| 0 <= k < a.len() implies ascii_lower(#[trigger] a[k])
                    == ascii_lower(b[k]) by {
                    assert(ascii_lower(b[k]) == ascii_lower(a[k]));
                }
            }
        }
    }
    lemma_find_theme(all_themes(), i);
    assert forall|j: int| 0 <= j < all_themes().len() && j != i implies (
    #[trigger] all_themes()[j]).name@ != all_themes()[i].name@ by {
        assert(!same_ignoring_case(all_themes()[j].name@, all_themes()[i].name@));
    }
}

} // verus!
