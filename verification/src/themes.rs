//! Compact per-theme CSS sheets and their lookup by display name.

use vstd::prelude::*;
use crate::strutil::str_eq;

verus! {

pub const TOKYO_NIGHT: &'static str = "\n    window { background: #1a1b26; color: #c0caf5; }\n    .sidebar { background: #16161e; }\n    button { background: #292e42; color: #c0caf5; border: none; }\n    button:hover { background: #3b4261; }\n    .suggested-action { background: #7aa2f7; color: #15161e; }\n    entry { background: #16161e; color: #c0caf5; border: 1px solid #414868; }\n    popover { background: #1a1b26; color: #c0caf5; border: 1px solid #414868; }\n    listview { background: #1a1b26; }\n";

pub const CATPPUCCIN_MOCHA: &'static str = "\n    window { background: #1e1e2e; color: #cdd6f4; }\n    .sidebar { background: #181825; }\n    button { background: #313244; color: #cdd6f4; border: none; }\n    button:hover { background: #45475a; }\n    .suggested-action { background: #89b4fa; color: #1e1e2e; }\n    entry { background: #181825; color: #cdd6f4; border: 1px solid #313244; }\n    popover { background: #1e1e2e; color: #cdd6f4; border: 1px solid #313244; }\n";

pub const GRUVBOX_DARK: &'static str = "\n    window { background: #282828; color: #ebdbb2; }\n    .sidebar { background: #1d2021; }\n    button { background: #3c3836; color: #ebdbb2; border: none; }\n    button:hover { background: #504945; }\n    .suggested-action { background: #d79921; color: #282828; }\n    entry { background: #1d2021; color: #ebdbb2; border: 1px solid #3c3836; }\n    popover { background: #282828; color: #ebdbb2; border: 1px solid #3c3836; }\n";

pub const NORD: &'static str = "\n    window { background: #2e3440; color: #d8dee9; }\n    .sidebar { background: #242933; }\n    button { background: #3b4252; color: #d8dee9; border: none; }\n    button:hover { background: #434c5e; }\n    .suggested-action { background: #88c0d0; color: #2e3440; }\n    entry { background: #242933; color: #d8dee9; border: 1px solid #3b4252; }\n    popover { background: #2e3440; color: #d8dee9; border: 1px solid #3b4252; }\n";

pub const SOLARIZED_DARK: &'static str = "\n    window { background: #002b36; color: #839496; }\n    .sidebar { background: #073642; }\n    button { background: #073642; color: #839496; border: none; }\n    button:hover { background: #586e75; }\n    .suggested-action { background: #268bd2; color: #002b36; }\n    entry { background: #073642; color: #839496; border: 1px solid #586e75; }\n    popover { background: #002b36; color: #839496; border: 1px solid #586e75; }\n";

/// The sheet a theme name selects; unknown names fall back to Tokyo Night.
pub open spec fn spec_get_css(name: Seq<char>) -> Seq<char> {
    if name == "Tokyo Night"@ {
        TOKYO_NIGHT@
    } else if name == "Catppuccin"@ {
        CATPPUCCIN_MOCHA@
    } else if name == "Gruvbox"@ {
        GRUVBOX_DARK@
    } else if name == "Nord"@ {
        NORD@
    } else if name == "Solarized"@ {
        SOLARIZED_DARK@
    } else {
        TOKYO_NIGHT@
    }
}

pub fn get_css(name: &str) -> (r: &'static str)
    ensures
        r@ == spec_get_css(name@),
{
    if str_eq(name, "Tokyo Night") {
        TOKYO_NIGHT
    } else if str_eq(name, "Catppuccin") {
        CATPPUCCIN_MOCHA
    } else if str_eq(name, "Gruvbox") {
        GRUVBOX_DARK
    } else if str_eq(name, "Nord") {
        NORD
    } else if str_eq(name, "Solarized") {
        SOLARIZED_DARK
    } else {
        TOKYO_NIGHT
    }
}

/// The selectable sheet names, in menu order.
pub fn all_themes() -> (r: Vec<&'static str>)
    ensures
        r@.len() == 5,
        r@[0]@ == "Tokyo Night"@,
        r@[1]@ == "Catppuccin"@,
        r@[2]@ == "Gruvbox"@,
        r@[3]@ == "Nord"@,
        r@[4]@ == "Solarized"@,
{
    let mut v: Vec<&'static str> = Vec::new();
    v.push("Tokyo Night");
    v.push("Catppuccin");
    v.push("Gruvbox");
    v.push("Nord");
    v.push("Solarized");
    v
}

} // verus!
