//! User-configurable settings as plain values. Persistence (TOML on disk)
//! belongs to the caller; the library only defines the shapes and defaults.

use vstd::prelude::*;
use crate::strutil::str_eq;

verus! {

/// Which icon set to use for file and folder display.
#[derive(Clone, Copy, PartialEq, Eq, Structural, Debug)]
pub enum IconTheme {
    Minimal,
    Colorful,
    Outline,
}

impl IconTheme {
    /// The display names of all icon themes, in order.
    pub fn all_names() -> (r: Vec<&'static str>)
        ensures
            r@.len() == 3,
            r@[0]@ == "Minimal"@,
            r@[1]@ == "Colorful"@,
            r@[2]@ == "Outline"@,
    {
        let mut v: Vec<&'static str> = Vec::new();
        v.push("Minimal");
        v.push("Colorful");
        v.push("Outline");
        v
    }

    pub open spec fn spec_display_name(self) -> Seq<char> {
        match self {
            IconTheme::Minimal => "Minimal"@,
            IconTheme::Colorful => "Colorful"@,
            IconTheme::Outline => "Outline"@,
        }
    }

    pub fn display_name(&self) -> (r: &'static str)
        ensures
            r@ == self.spec_display_name(),
    {
        match self {
            IconTheme::Minimal => "Minimal",
            IconTheme::Colorful => "Colorful",
            IconTheme::Outline => "Outline",
        }
    }

    /// The icon theme a display name denotes; unknown names fall back to
    /// `Minimal`.
    pub open spec fn spec_from_name(name: Seq<char>) -> IconTheme {
        if name == "Colorful"@ {
            IconTheme::Colorful
        } else if name == "Outline"@ {
            IconTheme::Outline
        } else {
            IconTheme::Minimal
        }
    }

    pub fn from_name(name: &str) -> (r: IconTheme)
        ensures
            r == Self::spec_from_name(name@),
    {
        if str_eq(name, "Colorful") {
            IconTheme::Colorful
        } else if str_eq(name, "Outline") {
            IconTheme::Outline
        } else {
            IconTheme::Minimal
        }
    }
}

/// How entries are grouped in the content view.
#[derive(Clone, Copy, PartialEq, Eq, Structural, Debug)]
pub enum GroupBy {
    Ungrouped,
    Type,
    Date,
    Name,
}

/// Grid (card), list (row) or graph (node) layout.
#[derive(Clone, Copy, PartialEq, Eq, Structural, Debug)]
pub enum ViewMode {
    Grid,
    List,
    Graph,
}

/// All user-configurable settings.
pub struct AppConfig {
    pub theme: String,
    pub icon_size: i32,
    pub view_mode: ViewMode,
    pub icon_theme: IconTheme,
    pub show_hidden: bool,
    pub show_file_size: bool,
    pub show_modified_date: bool,
    pub grouping: GroupBy,
    pub window_width: i32,
    pub window_height: i32,
}

impl Default for AppConfig {
    /// The out-of-the-box configuration.
    fn default() -> (c: AppConfig)
        ensures
            c.theme@ == "Catppuccin"@,
            c.icon_size == 48,
            c.view_mode == ViewMode::Grid,
            c.icon_theme == IconTheme::Minimal,
            !c.show_hidden,
            c.show_file_size,
            c.show_modified_date,
            c.grouping == GroupBy::Ungrouped,
            c.window_width == 1100,
            c.window_height == 700,
    {
        AppConfig {
            theme: "Catppuccin".to_owned(),
            icon_size: 48,
            view_mode: ViewMode::Grid,
            icon_theme: IconTheme::Minimal,
            show_hidden: false,
            show_file_size: true,
            show_modified_date: true,
            grouping: GroupBy::Ungrouped,
            window_width: 1100,
            window_height: 700,
        }
    }
}

} // verus!
