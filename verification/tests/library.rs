use diptych::color::{dir_color, file_color_for_ext};
use diptych::config::{AppConfig, GroupBy, IconTheme, ViewMode};
use diptych::entry::{group_entries, sort_entries, Entry};
use diptych::icons::{icon_css_class, icon_for_entry, icon_for_entry_themed, tree_icon_name};
use diptych::layout::{cosine_milli_of, sine_milli_of};
use diptych::math::isqrt;
use diptych::preview::supports_preview;
use diptych::strutil::{file_label, str_eq, str_lt, u64_to_dec};
use diptych::theme::Theme;
use diptych::themes::{all_themes, get_css};
use diptych::thumbs::{
    is_thumbable_image, is_thumbable_video, supports_thumbnail, ThumbnailCache,
};

fn entry(name: &str, is_dir: bool, ext: &str) -> Entry {
    Entry {
        name: name.to_string(),
        path: format!("/tmp/{}", name),
        is_dir,
        size: 0,
        modified: None,
        extension: ext.to_string(),
    }
}

#[test]
fn math_isqrt_exact() {
    assert_eq!(isqrt(0), 0);
    assert_eq!(isqrt(10), 3);
    assert_eq!(isqrt(16), 4);
    assert_eq!(isqrt(99), 9);
    assert_eq!(isqrt(1_000_000), 1000);
}

#[test]
fn layout_angles() {
    assert_eq!(sine_milli_of(0), 0);
    assert_eq!(sine_milli_of(90), 1000);
    assert_eq!(sine_milli_of(180), 0);
    assert_eq!(sine_milli_of(270), -1000);
    assert_eq!(cosine_milli_of(0), 1000);
    assert_eq!(cosine_milli_of(180), -1000);
}

#[test]
fn string_utilities() {
    assert!(str_eq("abc", "abc"));
    assert!(!str_eq("abc", "abd"));
    assert!(str_lt("abc", "abd"));
    assert!(!str_lt("b", "ab"));
    assert_eq!(u64_to_dec(0), "0");
    assert_eq!(u64_to_dec(90210), "90210");
    assert_eq!(file_label("/home/alice"), "alice");
    assert_eq!(file_label("/home/alice/"), "alice");
    assert_eq!(file_label("/"), "/");
    assert_eq!(file_label("plain"), "plain");
}

#[test]
fn size_display_formats() {
    let mut e = entry("a", false, "");
    e.size = 532;
    assert_eq!(e.size_display(), "532 B");
    e.size = 1536;
    assert_eq!(e.size_display(), "1.5 KB");
    e.size = 2 * 1024 * 1024;
    assert_eq!(e.size_display(), "2.0 MB");
    e.size = 5 * 1024 * 1024 * 1024 + 512 * 1024 * 1024;
    assert_eq!(e.size_display(), "5.50 GB");
    let d = entry("d", true, "");
    assert_eq!(d.size_display(), "\u{2014}");
}

#[test]
fn modified_display_matches_chrono() {
    let mut e = entry("a", false, "");
    e.modified = Some(1_600_000_000);
    let expected = chrono::DateTime::from_timestamp(1_600_000_000, 0)
        .unwrap()
        .format("%Y-%m-%d %H:%M")
        .to_string();
    assert_eq!(e.modified_display(), expected);
    e.modified = None;
    assert_eq!(e.modified_display(), "\u{2014}");
}

#[test]
fn group_keys_by_mode() {
    let d = entry("Docs", true, "");
    let f = entry("a.rs", false, "rs");
    let noext = entry("README", false, "");
    assert_eq!(d.group_key(&GroupBy::Ungrouped), "");
    assert_eq!(d.group_key(&GroupBy::Type), "\u{1F4C1} Folders");
    assert_eq!(f.group_key(&GroupBy::Type), "\u{1F4C4} .RS");
    assert_eq!(noext.group_key(&GroupBy::Type), "\u{1F4C4} Other");
    assert_eq!(f.group_key(&GroupBy::Name), "A");
    assert_eq!(entry("7zip", false, "").group_key(&GroupBy::Name), "#");
    let mut dated = entry("x", false, "");
    dated.modified = Some(1_600_000_000);
    let expected = chrono::DateTime::from_timestamp(1_600_000_000, 0)
        .unwrap()
        .format("%Y-%m-%d")
        .to_string();
    assert_eq!(dated.group_key(&GroupBy::Date), expected);
    assert_eq!(entry("x", false, "").group_key(&GroupBy::Date), "Unknown");
}

#[test]
fn grouping_partitions_and_sorts() {
    let items = vec![
        entry("b.rs", false, "rs"),
        entry("Docs", true, ""),
        entry("a.rs", false, "rs"),
    ];
    let groups = group_entries(&items, &GroupBy::Type);
    assert_eq!(groups.len(), 2);
    assert_eq!(groups[0].0, "\u{1F4C1} Folders");
    assert_eq!(groups[0].1, vec![1]);
    assert_eq!(groups[1].0, "\u{1F4C4} .RS");
    assert_eq!(groups[1].1, vec![0, 2]);
    let flat = group_entries(&items, &GroupBy::Ungrouped);
    assert_eq!(flat.len(), 1);
    assert_eq!(flat[0].0, "");
    assert_eq!(flat[0].1, vec![0, 1, 2]);
}

#[test]
fn sorting_puts_directories_first_case_insensitively() {
    let items = vec![
        entry("zeta.txt", false, "txt"),
        entry("Alpha", true, ""),
        entry("beta.txt", false, "txt"),
        entry("gamma", true, ""),
        entry("Beta.txt", false, "txt"),
    ];
    let sorted = sort_entries(items);
    let names: Vec<&str> = sorted.iter().map(|e| e.name.as_str()).collect();
    assert_eq!(names[0], "Alpha");
    assert_eq!(names[1], "gamma");
    assert_eq!(names[4], "zeta.txt");
    assert!(names[2].eq_ignore_ascii_case("beta.txt"));
    assert!(names[3].eq_ignore_ascii_case("beta.txt"));
}

#[test]
fn theme_names_and_palettes() {
    assert_eq!(Theme::all().len(), 8);
    assert_eq!(Theme::Catppuccin.display_name(), "Catppuccin");
    assert_eq!(Theme::RosePine.display_name(), "Ros\u{e9} Pine");
    assert_eq!(Theme::from_name("Nord"), Theme::Nord);
    assert_eq!(Theme::from_name("nonsense"), Theme::Catppuccin);
    let p = Theme::Catppuccin.palette();
    assert_eq!(p.bg_base, "#1e1e2e");
    assert_eq!(p.accent, "#89b4fa");
    let names = Theme::all_names();
    assert_eq!(names.len(), 8);
    assert_eq!(names[3], "Nord");
}

#[test]
fn css_sheets() {
    assert!(get_css("Nord").contains("#2e3440"));
    assert!(get_css("unknown").contains("#1a1b26"));
    assert_eq!(all_themes().len(), 5);
}

#[test]
fn icon_theme_round_trip() {
    assert_eq!(IconTheme::from_name("Colorful"), IconTheme::Colorful);
    assert_eq!(IconTheme::from_name("odd"), IconTheme::Minimal);
    assert_eq!(IconTheme::Colorful.display_name(), "Colorful");
    assert_eq!(IconTheme::all_names(), vec!["Minimal", "Colorful", "Outline"]);
}

#[test]
fn icons_per_theme() {
    let folder = entry("Docs", true, "");
    let rust = entry("a.rs", false, "rs");
    let song = entry("s.mp3", false, "mp3");
    assert_eq!(icon_for_entry(&folder), "folder-symbolic");
    assert_eq!(icon_for_entry_themed(&folder, &IconTheme::Colorful), "folder");
    assert_eq!(icon_for_entry(&rust), "text-x-generic-symbolic");
    assert_eq!(
        icon_for_entry_themed(&rust, &IconTheme::Colorful),
        "application-x-executable"
    );
    assert_eq!(
        icon_for_entry_themed(&rust, &IconTheme::Outline),
        "text-x-script-symbolic"
    );
    assert_eq!(
        icon_for_entry_themed(&song, &IconTheme::Minimal),
        "audio-x-generic-symbolic"
    );
    assert_eq!(icon_css_class(&folder), "icon-folder");
    assert_eq!(icon_css_class(&rust), "icon-rust");
    assert_eq!(icon_css_class(&song), "icon-audio");
    assert_eq!(tree_icon_name(&rust), "text-x-script-symbolic");
    assert_eq!(tree_icon_name(&folder), "folder-symbolic");
}

#[test]
fn node_colors_by_extension() {
    let blue = dir_color();
    assert_eq!((blue.r, blue.g, blue.b), (540, 710, 980));
    let rust = file_color_for_ext("rs");
    assert_eq!((rust.r, rust.g, rust.b), (870, 520, 260));
    let fallback = file_color_for_ext("odd");
    assert_eq!((fallback.r, fallback.g, fallback.b), (600, 600, 650));
}

#[test]
fn config_defaults() {
    let c = AppConfig::default();
    assert_eq!(c.theme, "Catppuccin");
    assert_eq!(c.icon_size, 48);
    assert_eq!(c.view_mode, ViewMode::Grid);
    assert_eq!(c.icon_theme, IconTheme::Minimal);
    assert!(!c.show_hidden);
    assert_eq!(c.grouping, GroupBy::Ungrouped);
    assert_eq!((c.window_width, c.window_height), (1100, 700));
}

#[test]
fn thumbnail_predicates() {
    assert!(is_thumbable_image("png"));
    assert!(!is_thumbable_image("txt"));
    assert!(is_thumbable_video("mkv"));
    assert!(supports_thumbnail("webp"));
    assert!(!supports_thumbnail("pdf"));
}

#[test]
fn cache_key_is_real_sha256_hex() {
    let cache = ThumbnailCache::with_dir("/tmp/thumbs".to_string());
    let key = cache.cache_key("/home/alice/cat.png", 1_700_000_000);
    // Recompute independently: path bytes then the little-endian timestamp.
    let mut data = b"/home/alice/cat.png".to_vec();
    data.extend_from_slice(&1_700_000_000u64.to_le_bytes());
    let expected = hex::encode(<sha2::Sha256 as sha2::Digest>::digest(&data));
    assert_eq!(key, expected);
    let path = cache.thumb_path("/home/alice/cat.png", 1_700_000_000);
    assert_eq!(path, format!("/tmp/thumbs/{}.png", expected));
    // A different mtime busts the key.
    assert_ne!(cache.cache_key("/home/alice/cat.png", 1_700_000_001), key);
}

#[test]
fn preview_support_from_path() {
    assert!(supports_preview("/home/alice/cat.PNG"));
    assert!(supports_preview("/videos/clip.webm"));
    assert!(!supports_preview("/notes/todo.txt"));
    assert!(!supports_preview("/etc/hostname"));
    assert!(!supports_preview("/home/.bashrc"));
}
