//! Theme definitions: the selectable themes, their display names, and the
//! colour palette each one is built from.

use vstd::prelude::*;
use crate::strutil::str_eq;

verus! {

/// Every selectable theme.
#[derive(Clone, Copy, PartialEq, Eq, Structural, Debug)]
pub enum Theme {

    Catppuccin,
    RosePine,
    TokyoSoft,
    Nord,
    Gruvbox,
    CozyLatte,
    DeepDark,
    HighContrast,
}

/// A complete colour palette; every CSS rule draws from these fields.
#[derive(Clone, Copy, Debug)]
pub struct ColorPalette {
    pub bg_base: &'static str,
    pub bg_surface: &'static str,
    pub bg_overlay: &'static str,
    pub bg_hover: &'static str,
    pub fg_primary: &'static str,
    pub fg_secondary: &'static str,
    pub fg_muted: &'static str,
    pub fg_subtle: &'static str,
    pub accent: &'static str,
    pub accent_hover: &'static str,
    pub border: &'static str,
    pub border_hover: &'static str,
    pub shadow: &'static str,
    pub shadow_hover: &'static str,
    pub accent_shadow: &'static str,
}

impl Theme {
    /// All themes, in the order the settings dropdown shows them.
    pub fn all() -> (r: Vec<Theme>)
        ensures
            r@ =~= seq![
                Theme::Catppuccin, Theme::RosePine, Theme::TokyoSoft, Theme::Nord, Theme::Gruvbox, Theme::CozyLatte, Theme::DeepDark, Theme::HighContrast,
            ],
    {
        let mut v: Vec<Theme> = Vec::new();
        v.push(Theme::Catppuccin);
        v.push(Theme::RosePine);
        v.push(Theme::TokyoSoft);
        v.push(Theme::Nord);
        v.push(Theme::Gruvbox);
        v.push(Theme::CozyLatte);
        v.push(Theme::DeepDark);
        v.push(Theme::HighContrast);
        v
    }

    pub open spec fn spec_display_name(self) -> Seq<char> {
        match self {
            Theme::Catppuccin => "Catppuccin"@,
            Theme::RosePine => "Rosé Pine"@,
            Theme::TokyoSoft => "Tokyo Soft"@,
            Theme::Nord => "Nord"@,
            Theme::Gruvbox => "Gruvbox"@,
            Theme::CozyLatte => "Cozy Latte"@,
            Theme::DeepDark => "Deep Dark"@,
            Theme::HighContrast => "High Contrast"@,
        }
    }

    /// Human-readable display name.
    pub fn display_name(&self) -> (r: &'static str)
        ensures
            r@ == self.spec_display_name(),
    {
        match self {
            Theme::Catppuccin => "Catppuccin",
            Theme::RosePine => "Rosé Pine",
            Theme::TokyoSoft => "Tokyo Soft",
            Theme::Nord => "Nord",
            Theme::Gruvbox => "Gruvbox",
            Theme::CozyLatte => "Cozy Latte",
            Theme::DeepDark => "Deep Dark",
            Theme::HighContrast => "High Contrast",
        }
    }

    /// All display names, in the same order as `all`.
    pub fn all_names() -> (r: Vec<&'static str>)
        ensures
            r@.len() == 8,
            forall|i: int|
                0 <= i < 8 ==> (#[trigger] r@[i])@ == Self::spec_all()[i].spec_display_name(),
    {
        let mut v: Vec<&'static str> = Vec::new();
        v.push("Catppuccin");
        v.push("Rosé Pine");
        v.push("Tokyo Soft");
        v.push("Nord");
        v.push("Gruvbox");
        v.push("Cozy Latte");
        v.push("Deep Dark");
        v.push("High Contrast");
        v
    }

    /// The themes of `all`, as a sequence.
    pub open spec fn spec_all() -> Seq<Theme> {
        seq![
            Theme::Catppuccin, Theme::RosePine, Theme::TokyoSoft, Theme::Nord, Theme::Gruvbox, Theme::CozyLatte, Theme::DeepDark, Theme::HighContrast,
        ]
    }

    /// The theme a display name denotes; unknown names fall back to
    /// `Catppuccin`.
    pub open spec fn spec_from_name(name: Seq<char>) -> Theme {
        if name == "Rosé Pine"@ {
            Theme::RosePine
        } else if name == "Tokyo Soft"@ {
            Theme::TokyoSoft
        } else if name == "Nord"@ {
            Theme::Nord
        } else if name == "Gruvbox"@ {
            Theme::Gruvbox
        } else if name == "Cozy Latte"@ {
            Theme::CozyLatte
        } else if name == "Deep Dark"@ {
            Theme::DeepDark
        } else if name == "High Contrast"@ {
            Theme::HighContrast
        } else {
            Theme::Catppuccin
        }
    }

    pub fn from_name(name: &str) -> (r: Theme)
        ensures
            r == Self::spec_from_name(name@),
    {
        if str_eq(name, "Rosé Pine") {
            Theme::RosePine
        } else if str_eq(name, "Tokyo Soft") {
            Theme::TokyoSoft
        } else if str_eq(name, "Nord") {
            Theme::Nord
        } else if str_eq(name, "Gruvbox") {
            Theme::Gruvbox
        } else if str_eq(name, "Cozy Latte") {
            Theme::CozyLatte
        } else if str_eq(name, "Deep Dark") {
            Theme::DeepDark
        } else if str_eq(name, "High Contrast") {
            Theme::HighContrast
        } else {
            Theme::Catppuccin
        }
    }

    /// The palette of this theme.
    pub open spec fn spec_palette(self) -> ColorPalette {
        match self {
            Theme::Catppuccin => ColorPalette {
                bg_base: "#1e1e2e",
                bg_surface: "#181825",
                bg_overlay: "#313244",
                bg_hover: "#45475a",
                fg_primary: "#cdd6f4",
                fg_secondary: "#a6adc8",
                fg_muted: "#6c7086",
                fg_subtle: "#bac2de",
                accent: "#89b4fa",
                accent_hover: "#b4d0fb",
                border: "rgba(205, 214, 244, 0.06)",
                border_hover: "rgba(137, 180, 250, 0.25)",
                shadow: "rgba(0, 0, 0, 0.18)",
                shadow_hover: "rgba(0, 0, 0, 0.28)",
                accent_shadow: "rgba(137, 180, 250, 0.2)",
            },
            Theme::RosePine => ColorPalette {
                bg_base: "#191724",
                bg_surface: "#1f1d2e",
                bg_overlay: "#26233a",
                bg_hover: "#2a283e",
                fg_primary: "#e0def4",
                fg_secondary: "#908caa",
                fg_muted: "#6e6a86",
                fg_subtle: "#e0def4",
                accent: "#c4a7e7",
                accent_hover: "#d4bff0",
                border: "rgba(224, 222, 244, 0.06)",
                border_hover: "rgba(196, 167, 231, 0.25)",
                shadow: "rgba(0, 0, 0, 0.18)",
                shadow_hover: "rgba(0, 0, 0, 0.28)",
                accent_shadow: "rgba(196, 167, 231, 0.2)",
            },
            Theme::TokyoSoft => ColorPalette {
                bg_base: "#1a1b26",
                bg_surface: "#16161e",
                bg_overlay: "#292e42",
                bg_hover: "#3b4261",
                fg_primary: "#c0caf5",
                fg_secondary: "#565f89",
                fg_muted: "#565f89",
                fg_subtle: "#c0caf5",
                accent: "#7aa2f7",
                accent_hover: "#9bb8f9",
                border: "rgba(192, 202, 245, 0.06)",
                border_hover: "rgba(122, 162, 247, 0.25)",
                shadow: "rgba(0, 0, 0, 0.18)",
                shadow_hover: "rgba(0, 0, 0, 0.28)",
                accent_shadow: "rgba(122, 162, 247, 0.2)",
            },
            Theme::Nord => ColorPalette {
                bg_base: "#2e3440",
                bg_surface: "#242933",
                bg_overlay: "#3b4252",
                bg_hover: "#434c5e",
                fg_primary: "#d8dee9",
                fg_secondary: "#4c566a",
                fg_muted: "#4c566a",
                fg_subtle: "#d8dee9",
                accent: "#88c0d0",
                accent_hover: "#a3d1de",
                border: "rgba(216, 222, 233, 0.06)",
                border_hover: "rgba(136, 192, 208, 0.25)",
                shadow: "rgba(0, 0, 0, 0.18)",
                shadow_hover: "rgba(0, 0, 0, 0.28)",
                accent_shadow: "rgba(136, 192, 208, 0.2)",
            },
            Theme::Gruvbox => ColorPalette {
                bg_base: "#282828",
                bg_surface: "#1d2021",
                bg_overlay: "#3c3836",
                bg_hover: "#504945",
                fg_primary: "#ebdbb2",
                fg_secondary: "#928374",
                fg_muted: "#928374",
                fg_subtle: "#ebdbb2",
                accent: "#d79921",
                accent_hover: "#e5b84a",
                border: "rgba(235, 219, 178, 0.06)",
                border_hover: "rgba(215, 153, 33, 0.25)",
                shadow: "rgba(0, 0, 0, 0.18)",
                shadow_hover: "rgba(0, 0, 0, 0.28)",
                accent_shadow: "rgba(215, 153, 33, 0.2)",
            },
            Theme::CozyLatte => ColorPalette {
                bg_base: "#eff1f5",
                bg_surface: "#e6e9ef",
                bg_overlay: "#dce0e8",
                bg_hover: "#ccd0da",
                fg_primary: "#4c4f69",
                fg_secondary: "#6c6f85",
                fg_muted: "#8c8fa1",
                fg_subtle: "#5c5f77",
                accent: "#dc8a78",
                accent_hover: "#e6a192",
                border: "rgba(76, 79, 105, 0.10)",
                border_hover: "rgba(220, 138, 120, 0.30)",
                shadow: "rgba(0, 0, 0, 0.06)",
                shadow_hover: "rgba(0, 0, 0, 0.12)",
                accent_shadow: "rgba(220, 138, 120, 0.15)",
            },
            Theme::DeepDark => ColorPalette {
                bg_base: "#0a0a0f",
                bg_surface: "#111118",
                bg_overlay: "#1a1a24",
                bg_hover: "#252530",
                fg_primary: "#e8e8ef",
                fg_secondary: "#8888a0",
                fg_muted: "#555566",
                fg_subtle: "#ccccdd",
                accent: "#7c6ff0",
                accent_hover: "#9d93f5",
                border: "rgba(232, 232, 239, 0.06)",
                border_hover: "rgba(124, 111, 240, 0.30)",
                shadow: "rgba(0, 0, 0, 0.40)",
                shadow_hover: "rgba(0, 0, 0, 0.55)",
                accent_shadow: "rgba(124, 111, 240, 0.25)",
            },
            Theme::HighContrast => ColorPalette {
                bg_base: "#000000",
                bg_surface: "#0a0a0a",
                bg_overlay: "#1a1a1a",
                bg_hover: "#2a2a2a",
                fg_primary: "#ffffff",
                fg_secondary: "#cccccc",
                fg_muted: "#999999",
                fg_subtle: "#dddddd",
                accent: "#ffdd00",
                accent_hover: "#ffee55",
                border: "rgba(255, 255, 255, 0.20)",
                border_hover: "rgba(255, 221, 0, 0.50)",
                shadow: "rgba(0, 0, 0, 0.50)",
                shadow_hover: "rgba(0, 0, 0, 0.65)",
                accent_shadow: "rgba(255, 221, 0, 0.25)",
            },
        }
    }

    /// Build the `ColorPalette` for this theme.
    pub fn palette(&self) -> (r: ColorPalette)
        ensures
            r == self.spec_palette(),
    {
        match self {
            Theme::Catppuccin => ColorPalette {
                bg_base: "#1e1e2e",
                bg_surface: "#181825",
                bg_overlay: "#313244",
                bg_hover: "#45475a",
                fg_primary: "#cdd6f4",
                fg_secondary: "#a6adc8",
                fg_muted: "#6c7086",
                fg_subtle: "#bac2de",
                accent: "#89b4fa",
                accent_hover: "#b4d0fb",
                border: "rgba(205, 214, 244, 0.06)",
                border_hover: "rgba(137, 180, 250, 0.25)",
                shadow: "rgba(0, 0, 0, 0.18)",
                shadow_hover: "rgba(0, 0, 0, 0.28)",
                accent_shadow: "rgba(137, 180, 250, 0.2)",
            },
            Theme::RosePine => ColorPalette {
                bg_base: "#191724",
                bg_surface: "#1f1d2e",
                bg_overlay: "#26233a",
                bg_hover: "#2a283e",
                fg_primary: "#e0def4",
                fg_secondary: "#908caa",
                fg_muted: "#6e6a86",
                fg_subtle: "#e0def4",
                accent: "#c4a7e7",
                accent_hover: "#d4bff0",
                border: "rgba(224, 222, 244, 0.06)",
                border_hover: "rgba(196, 167, 231, 0.25)",
                shadow: "rgba(0, 0, 0, 0.18)",
                shadow_hover: "rgba(0, 0, 0, 0.28)",
                accent_shadow: "rgba(196, 167, 231, 0.2)",
            },
            Theme::TokyoSoft => ColorPalette {
                bg_base: "#1a1b26",
                bg_surface: "#16161e",
                bg_overlay: "#292e42",
                bg_hover: "#3b4261",
                fg_primary: "#c0caf5",
                fg_secondary: "#565f89",
                fg_muted: "#565f89",
                fg_subtle: "#c0caf5",
                accent: "#7aa2f7",
                accent_hover: "#9bb8f9",
                border: "rgba(192, 202, 245, 0.06)",
                border_hover: "rgba(122, 162, 247, 0.25)",
                shadow: "rgba(0, 0, 0, 0.18)",
                shadow_hover: "rgba(0, 0, 0, 0.28)",
                accent_shadow: "rgba(122, 162, 247, 0.2)",
            },
            Theme::Nord => ColorPalette {
                bg_base: "#2e3440",
                bg_surface: "#242933",
                bg_overlay: "#3b4252",
                bg_hover: "#434c5e",
                fg_primary: "#d8dee9",
                fg_secondary: "#4c566a",
                fg_muted: "#4c566a",
                fg_subtle: "#d8dee9",
                accent: "#88c0d0",
                accent_hover: "#a3d1de",
                border: "rgba(216, 222, 233, 0.06)",
                border_hover: "rgba(136, 192, 208, 0.25)",
                shadow: "rgba(0, 0, 0, 0.18)",
                shadow_hover: "rgba(0, 0, 0, 0.28)",
                accent_shadow: "rgba(136, 192, 208, 0.2)",
            },
            Theme::Gruvbox => ColorPalette {
                bg_base: "#282828",
                bg_surface: "#1d2021",
                bg_overlay: "#3c3836",
                bg_hover: "#504945",
                fg_primary: "#ebdbb2",
                fg_secondary: "#928374",
                fg_muted: "#928374",
                fg_subtle: "#ebdbb2",
                accent: "#d79921",
                accent_hover: "#e5b84a",
                border: "rgba(235, 219, 178, 0.06)",
                border_hover: "rgba(215, 153, 33, 0.25)",
                shadow: "rgba(0, 0, 0, 0.18)",
                shadow_hover: "rgba(0, 0, 0, 0.28)",
                accent_shadow: "rgba(215, 153, 33, 0.2)",
            },
            Theme::CozyLatte => ColorPalette {
                bg_base: "#eff1f5",
                bg_surface: "#e6e9ef",
                bg_overlay: "#dce0e8",
                bg_hover: "#ccd0da",
                fg_primary: "#4c4f69",
                fg_secondary: "#6c6f85",
                fg_muted: "#8c8fa1",
                fg_subtle: "#5c5f77",
                accent: "#dc8a78",
                accent_hover: "#e6a192",
                border: "rgba(76, 79, 105, 0.10)",
                border_hover: "rgba(220, 138, 120, 0.30)",
                shadow: "rgba(0, 0, 0, 0.06)",
                shadow_hover: "rgba(0, 0, 0, 0.12)",
                accent_shadow: "rgba(220, 138, 120, 0.15)",
            },
            Theme::DeepDark => ColorPalette {
                bg_base: "#0a0a0f",
                bg_surface: "#111118",
                bg_overlay: "#1a1a24",
                bg_hover: "#252530",
                fg_primary: "#e8e8ef",
                fg_secondary: "#8888a0",
                fg_muted: "#555566",
                fg_subtle: "#ccccdd",
                accent: "#7c6ff0",
                accent_hover: "#9d93f5",
                border: "rgba(232, 232, 239, 0.06)",
                border_hover: "rgba(124, 111, 240, 0.30)",
                shadow: "rgba(0, 0, 0, 0.40)",
                shadow_hover: "rgba(0, 0, 0, 0.55)",
                accent_shadow: "rgba(124, 111, 240, 0.25)",
            },
            Theme::HighContrast => ColorPalette {
                bg_base: "#000000",
                bg_surface: "#0a0a0a",
                bg_overlay: "#1a1a1a",
                bg_hover: "#2a2a2a",
                fg_primary: "#ffffff",
                fg_secondary: "#cccccc",
                fg_muted: "#999999",
                fg_subtle: "#dddddd",
                accent: "#ffdd00",
                accent_hover: "#ffee55",
                border: "rgba(255, 255, 255, 0.20)",
                border_hover: "rgba(255, 221, 0, 0.50)",
                shadow: "rgba(0, 0, 0, 0.50)",
                shadow_hover: "rgba(0, 0, 0, 0.65)",
                accent_shadow: "rgba(255, 221, 0, 0.25)",
            },
        }
    }
}

} // verus!
