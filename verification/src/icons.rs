//! The icon tables: which named icon each entry gets, per icon theme, and
//! the CSS class that tints it. Pure string classification.

use vstd::prelude::*;
use crate::config::IconTheme;
use crate::entry::Entry;
use crate::strutil::str_eq;

verus! {

/// The Minimal theme: one uniform symbolic icon per broad category.
pub open spec fn spec_minimal_icon(ext: Seq<char>) -> Seq<char> {
    if ext == "rs"@ || ext == "py"@ || ext == "js"@ || ext == "ts"@ || ext == "c"@ || ext == "cpp"@ || ext == "h"@ || ext == "java"@ || ext == "go"@ || ext == "rb"@ || ext == "swift"@ || ext == "kt"@ || ext == "cs"@ || ext == "lua"@ || ext == "sh"@ || ext == "fish"@ || ext == "zsh"@ || ext == "bash"@ || ext == "html"@ || ext == "htm"@ || ext == "css"@ {
        "text-x-generic-symbolic"@
    } else if ext == "png"@ || ext == "jpg"@ || ext == "jpeg"@ || ext == "gif"@ || ext == "svg"@ || ext == "webp"@ || ext == "bmp"@ || ext == "ico"@ {
        "image-x-generic-symbolic"@
    } else if ext == "mp3"@ || ext == "flac"@ || ext == "ogg"@ || ext == "wav"@ || ext == "m4a"@ || ext == "aac"@ {
        "audio-x-generic-symbolic"@
    } else if ext == "mp4"@ || ext == "mkv"@ || ext == "avi"@ || ext == "mov"@ || ext == "webm"@ {
        "video-x-generic-symbolic"@
    } else if ext == "zip"@ || ext == "tar"@ || ext == "gz"@ || ext == "bz2"@ || ext == "xz"@ || ext == "7z"@ || ext == "rar"@ {
        "package-x-generic-symbolic"@
    } else {
        "text-x-generic-symbolic"@
    }
}

pub fn minimal_icon(ext: &str) -> (r: &'static str)
    ensures
        r@ == spec_minimal_icon(ext@),
{
    if str_eq(ext, "rs") || str_eq(ext, "py") || str_eq(ext, "js") || str_eq(ext, "ts") || str_eq(ext, "c") || str_eq(ext, "cpp") || str_eq(ext, "h") || str_eq(ext, "java") || str_eq(ext, "go") || str_eq(ext, "rb") || str_eq(ext, "swift") || str_eq(ext, "kt") || str_eq(ext, "cs") || str_eq(ext, "lua") || str_eq(ext, "sh") || str_eq(ext, "fish") || str_eq(ext, "zsh") || str_eq(ext, "bash") || str_eq(ext, "html") || str_eq(ext, "htm") || str_eq(ext, "css") {
        "text-x-generic-symbolic"
    } else if str_eq(ext, "png") || str_eq(ext, "jpg") || str_eq(ext, "jpeg") || str_eq(ext, "gif") || str_eq(ext, "svg") || str_eq(ext, "webp") || str_eq(ext, "bmp") || str_eq(ext, "ico") {
        "image-x-generic-symbolic"
    } else if str_eq(ext, "mp3") || str_eq(ext, "flac") || str_eq(ext, "ogg") || str_eq(ext, "wav") || str_eq(ext, "m4a") || str_eq(ext, "aac") {
        "audio-x-generic-symbolic"
    } else if str_eq(ext, "mp4") || str_eq(ext, "mkv") || str_eq(ext, "avi") || str_eq(ext, "mov") || str_eq(ext, "webm") {
        "video-x-generic-symbolic"
    } else if str_eq(ext, "zip") || str_eq(ext, "tar") || str_eq(ext, "gz") || str_eq(ext, "bz2") || str_eq(ext, "xz") || str_eq(ext, "7z") || str_eq(ext, "rar") {
        "package-x-generic-symbolic"
    } else {
        "text-x-generic-symbolic"
    }
}

/// The Colorful theme: vivid, category-specific icons.
pub open spec fn spec_colorful_icon(ext: Seq<char>) -> Seq<char> {
    if ext == "rs"@ {
        "application-x-executable"@
    } else if ext == "py"@ {
        "text-x-python"@
    } else if ext == "js"@ || ext == "ts"@ {
        "text-x-script"@
    } else if ext == "c"@ || ext == "cpp"@ || ext == "h"@ {
        "text-x-csrc"@
    } else if ext == "java"@ {
        "text-x-java"@
    } else if ext == "go"@ {
        "text-x-generic"@
    } else if ext == "sh"@ || ext == "fish"@ || ext == "zsh"@ || ext == "bash"@ {
        "application-x-shellscript"@
    } else if ext == "rb"@ || ext == "swift"@ || ext == "kt"@ || ext == "cs"@ || ext == "lua"@ {
        "text-x-script"@
    } else if ext == "png"@ || ext == "jpg"@ || ext == "jpeg"@ || ext == "gif"@ || ext == "svg"@ || ext == "webp"@ || ext == "bmp"@ || ext == "ico"@ {
        "image-x-generic"@
    } else if ext == "mp3"@ || ext == "flac"@ || ext == "ogg"@ || ext == "wav"@ || ext == "m4a"@ || ext == "aac"@ {
        "audio-x-generic"@
    } else if ext == "mp4"@ || ext == "mkv"@ || ext == "avi"@ || ext == "mov"@ || ext == "webm"@ {
        "video-x-generic"@
    } else if ext == "zip"@ || ext == "tar"@ || ext == "gz"@ || ext == "bz2"@ || ext == "xz"@ || ext == "7z"@ || ext == "rar"@ {
        "package-x-generic"@
    } else if ext == "pdf"@ {
        "x-office-document"@
    } else if ext == "html"@ || ext == "htm"@ || ext == "css"@ {
        "text-html"@
    } else if ext == "json"@ || ext == "toml"@ || ext == "yaml"@ || ext == "yml"@ || ext == "xml"@ {
        "text-x-generic"@
    } else if ext == "md"@ {
        "text-x-generic"@
    } else if ext == "txt"@ || ext == "log"@ || ext == "csv"@ {
        "text-x-generic"@
    } else {
        "text-x-generic"@
    }
}

pub fn colorful_icon(ext: &str) -> (r: &'static str)
    ensures
        r@ == spec_colorful_icon(ext@),
{
    if str_eq(ext, "rs") {
        "application-x-executable"
    } else if str_eq(ext, "py") {
        "text-x-python"
    } else if str_eq(ext, "js") || str_eq(ext, "ts") {
        "text-x-script"
    } else if str_eq(ext, "c") || str_eq(ext, "cpp") || str_eq(ext, "h") {
        "text-x-csrc"
    } else if str_eq(ext, "java") {
        "text-x-java"
    } else if str_eq(ext, "go") {
        "text-x-generic"
    } else if str_eq(ext, "sh") || str_eq(ext, "fish") || str_eq(ext, "zsh") || str_eq(ext, "bash") {
        "application-x-shellscript"
    } else if str_eq(ext, "rb") || str_eq(ext, "swift") || str_eq(ext, "kt") || str_eq(ext, "cs") || str_eq(ext, "lua") {
        "text-x-script"
    } else if str_eq(ext, "png") || str_eq(ext, "jpg") || str_eq(ext, "jpeg") || str_eq(ext, "gif") || str_eq(ext, "svg") || str_eq(ext, "webp") || str_eq(ext, "bmp") || str_eq(ext, "ico") {
        "image-x-generic"
    } else if str_eq(ext, "mp3") || str_eq(ext, "flac") || str_eq(ext, "ogg") || str_eq(ext, "wav") || str_eq(ext, "m4a") || str_eq(ext, "aac") {
        "audio-x-generic"
    } else if str_eq(ext, "mp4") || str_eq(ext, "mkv") || str_eq(ext, "avi") || str_eq(ext, "mov") || str_eq(ext, "webm") {
        "video-x-generic"
    } else if str_eq(ext, "zip") || str_eq(ext, "tar") || str_eq(ext, "gz") || str_eq(ext, "bz2") || str_eq(ext, "xz") || str_eq(ext, "7z") || str_eq(ext, "rar") {
        "package-x-generic"
    } else if str_eq(ext, "pdf") {
        "x-office-document"
    } else if str_eq(ext, "html") || str_eq(ext, "htm") || str_eq(ext, "css") {
        "text-html"
    } else if str_eq(ext, "json") || str_eq(ext, "toml") || str_eq(ext, "yaml") || str_eq(ext, "yml") || str_eq(ext, "xml") {
        "text-x-generic"
    } else if str_eq(ext, "md") {
        "text-x-generic"
    } else if str_eq(ext, "txt") || str_eq(ext, "log") || str_eq(ext, "csv") {
        "text-x-generic"
    } else {
        "text-x-generic"
    }
}

/// The Outline theme: detailed monochrome symbolic icons.
pub open spec fn spec_outline_icon(ext: Seq<char>) -> Seq<char> {
    if ext == "rs"@ || ext == "py"@ || ext == "js"@ || ext == "ts"@ || ext == "c"@ || ext == "cpp"@ || ext == "h"@ || ext == "java"@ || ext == "go"@ || ext == "rb"@ || ext == "swift"@ || ext == "kt"@ || ext == "cs"@ || ext == "lua"@ {
        "text-x-script-symbolic"@
    } else if ext == "sh"@ || ext == "fish"@ || ext == "zsh"@ || ext == "bash"@ {
        "application-x-executable-symbolic"@
    } else if ext == "png"@ || ext == "jpg"@ || ext == "jpeg"@ || ext == "gif"@ || ext == "bmp"@ || ext == "ico"@ || ext == "webp"@ {
        "image-x-generic-symbolic"@
    } else if ext == "svg"@ {
        "image-x-generic-symbolic"@
    } else if ext == "mp3"@ || ext == "flac"@ || ext == "ogg"@ || ext == "wav"@ || ext == "m4a"@ || ext == "aac"@ {
        "audio-x-generic-symbolic"@
    } else if ext == "mp4"@ || ext == "mkv"@ || ext == "avi"@ || ext == "mov"@ || ext == "webm"@ {
        "video-x-generic-symbolic"@
    } else if ext == "zip"@ || ext == "tar"@ || ext == "gz"@ || ext == "bz2"@ || ext == "xz"@ || ext == "7z"@ || ext == "rar"@ {
        "package-x-generic-symbolic"@
    } else if ext == "pdf"@ {
        "x-office-document-symbolic"@
    } else if ext == "html"@ || ext == "htm"@ {
        "text-html-symbolic"@
    } else if ext == "css"@ {
        "text-x-preview-symbolic"@
    } else if ext == "md"@ {
        "x-office-document-symbolic"@
    } else if ext == "json"@ || ext == "toml"@ || ext == "yaml"@ || ext == "yml"@ || ext == "xml"@ {
        "emblem-system-symbolic"@
    } else if ext == "txt"@ || ext == "log"@ || ext == "csv"@ {
        "accessories-text-editor-symbolic"@
    } else {
        "text-x-generic-symbolic"@
    }
}

pub fn outline_icon(ext: &str) -> (r: &'static str)
    ensures
        r@ == spec_outline_icon(ext@),
{
    if str_eq(ext, "rs") || str_eq(ext, "py") || str_eq(ext, "js") || str_eq(ext, "ts") || str_eq(ext, "c") || str_eq(ext, "cpp") || str_eq(ext, "h") || str_eq(ext, "java") || str_eq(ext, "go") || str_eq(ext, "rb") || str_eq(ext, "swift") || str_eq(ext, "kt") || str_eq(ext, "cs") || str_eq(ext, "lua") {
        "text-x-script-symbolic"
    } else if str_eq(ext, "sh") || str_eq(ext, "fish") || str_eq(ext, "zsh") || str_eq(ext, "bash") {
        "application-x-executable-symbolic"
    } else if str_eq(ext, "png") || str_eq(ext, "jpg") || str_eq(ext, "jpeg") || str_eq(ext, "gif") || str_eq(ext, "bmp") || str_eq(ext, "ico") || str_eq(ext, "webp") {
        "image-x-generic-symbolic"
    } else if str_eq(ext, "svg") {
        "image-x-generic-symbolic"
    } else if str_eq(ext, "mp3") || str_eq(ext, "flac") || str_eq(ext, "ogg") || str_eq(ext, "wav") || str_eq(ext, "m4a") || str_eq(ext, "aac") {
        "audio-x-generic-symbolic"
    } else if str_eq(ext, "mp4") || str_eq(ext, "mkv") || str_eq(ext, "avi") || str_eq(ext, "mov") || str_eq(ext, "webm") {
        "video-x-generic-symbolic"
    } else if str_eq(ext, "zip") || str_eq(ext, "tar") || str_eq(ext, "gz") || str_eq(ext, "bz2") || str_eq(ext, "xz") || str_eq(ext, "7z") || str_eq(ext, "rar") {
        "package-x-generic-symbolic"
    } else if str_eq(ext, "pdf") {
        "x-office-document-symbolic"
    } else if str_eq(ext, "html") || str_eq(ext, "htm") {
        "text-html-symbolic"
    } else if str_eq(ext, "css") {
        "text-x-preview-symbolic"
    } else if str_eq(ext, "md") {
        "x-office-document-symbolic"
    } else if str_eq(ext, "json") || str_eq(ext, "toml") || str_eq(ext, "yaml") || str_eq(ext, "yml") || str_eq(ext, "xml") {
        "emblem-system-symbolic"
    } else if str_eq(ext, "txt") || str_eq(ext, "log") || str_eq(ext, "csv") {
        "accessories-text-editor-symbolic"
    } else {
        "text-x-generic-symbolic"
    }
}

/// The CSS class that tints a file icon by category.
pub open spec fn spec_icon_class_for_ext(ext: Seq<char>) -> Seq<char> {
    if ext == "rs"@ {
        "icon-rust"@
    } else if ext == "py"@ {
        "icon-python"@
    } else if ext == "js"@ || ext == "ts"@ {
        "icon-js"@
    } else if ext == "c"@ || ext == "cpp"@ || ext == "h"@ {
        "icon-c"@
    } else if ext == "java"@ || ext == "kt"@ {
        "icon-java"@
    } else if ext == "go"@ {
        "icon-go"@
    } else if ext == "sh"@ || ext == "fish"@ || ext == "zsh"@ || ext == "bash"@ || ext == "lua"@ || ext == "rb"@ || ext == "swift"@ || ext == "cs"@ {
        "icon-script"@
    } else if ext == "png"@ || ext == "jpg"@ || ext == "jpeg"@ || ext == "gif"@ || ext == "svg"@ || ext == "webp"@ || ext == "bmp"@ || ext == "ico"@ {
        "icon-image"@
    } else if ext == "mp3"@ || ext == "flac"@ || ext == "ogg"@ || ext == "wav"@ || ext == "m4a"@ || ext == "aac"@ {
        "icon-audio"@
    } else if ext == "mp4"@ || ext == "mkv"@ || ext == "avi"@ || ext == "mov"@ || ext == "webm"@ {
        "icon-video"@
    } else if ext == "zip"@ || ext == "tar"@ || ext == "gz"@ || ext == "bz2"@ || ext == "xz"@ || ext == "7z"@ || ext == "rar"@ {
        "icon-archive"@
    } else if ext == "pdf"@ {
        "icon-pdf"@
    } else if ext == "html"@ || ext == "htm"@ || ext == "css"@ {
        "icon-web"@
    } else if ext == "md"@ || ext == "txt"@ || ext == "log"@ || ext == "csv"@ {
        "icon-text"@
    } else if ext == "json"@ || ext == "toml"@ || ext == "yaml"@ || ext == "yml"@ || ext == "xml"@ {
        "icon-config"@
    } else {
        "icon-default"@
    }
}

pub fn icon_class_for_ext(ext: &str) -> (r: &'static str)
    ensures
        r@ == spec_icon_class_for_ext(ext@),
{
    if str_eq(ext, "rs") {
        "icon-rust"
    } else if str_eq(ext, "py") {
        "icon-python"
    } else if str_eq(ext, "js") || str_eq(ext, "ts") {
        "icon-js"
    } else if str_eq(ext, "c") || str_eq(ext, "cpp") || str_eq(ext, "h") {
        "icon-c"
    } else if str_eq(ext, "java") || str_eq(ext, "kt") {
        "icon-java"
    } else if str_eq(ext, "go") {
        "icon-go"
    } else if str_eq(ext, "sh") || str_eq(ext, "fish") || str_eq(ext, "zsh") || str_eq(ext, "bash") || str_eq(ext, "lua") || str_eq(ext, "rb") || str_eq(ext, "swift") || str_eq(ext, "cs") {
        "icon-script"
    } else if str_eq(ext, "png") || str_eq(ext, "jpg") || str_eq(ext, "jpeg") || str_eq(ext, "gif") || str_eq(ext, "svg") || str_eq(ext, "webp") || str_eq(ext, "bmp") || str_eq(ext, "ico") {
        "icon-image"
    } else if str_eq(ext, "mp3") || str_eq(ext, "flac") || str_eq(ext, "ogg") || str_eq(ext, "wav") || str_eq(ext, "m4a") || str_eq(ext, "aac") {
        "icon-audio"
    } else if str_eq(ext, "mp4") || str_eq(ext, "mkv") || str_eq(ext, "avi") || str_eq(ext, "mov") || str_eq(ext, "webm") {
        "icon-video"
    } else if str_eq(ext, "zip") || str_eq(ext, "tar") || str_eq(ext, "gz") || str_eq(ext, "bz2") || str_eq(ext, "xz") || str_eq(ext, "7z") || str_eq(ext, "rar") {
        "icon-archive"
    } else if str_eq(ext, "pdf") {
        "icon-pdf"
    } else if str_eq(ext, "html") || str_eq(ext, "htm") || str_eq(ext, "css") {
        "icon-web"
    } else if str_eq(ext, "md") || str_eq(ext, "txt") || str_eq(ext, "log") || str_eq(ext, "csv") {
        "icon-text"
    } else if str_eq(ext, "json") || str_eq(ext, "toml") || str_eq(ext, "yaml") || str_eq(ext, "yml") || str_eq(ext, "xml") {
        "icon-config"
    } else {
        "icon-default"
    }
}

/// The icon used by the tree sidebar for a file.
pub open spec fn spec_tree_icon_name_for_ext(ext: Seq<char>) -> Seq<char> {
    if ext == "rs"@ {
        "text-x-script-symbolic"@
    } else if ext == "py"@ {
        "text-x-script-symbolic"@
    } else if ext == "js"@ || ext == "ts"@ || ext == "jsx"@ || ext == "tsx"@ {
        "text-x-script-symbolic"@
    } else if ext == "c"@ || ext == "cpp"@ || ext == "h"@ {
        "text-x-script-symbolic"@
    } else if ext == "java"@ || ext == "kt"@ {
        "text-x-script-symbolic"@
    } else if ext == "go"@ {
        "text-x-script-symbolic"@
    } else if ext == "rb"@ || ext == "swift"@ || ext == "cs"@ || ext == "lua"@ {
        "text-x-script-symbolic"@
    } else if ext == "sh"@ || ext == "fish"@ || ext == "zsh"@ || ext == "bash"@ {
        "application-x-executable-symbolic"@
    } else if ext == "png"@ || ext == "jpg"@ || ext == "jpeg"@ || ext == "gif"@ || ext == "svg"@ || ext == "webp"@ || ext == "bmp"@ || ext == "ico"@ {
        "image-x-generic-symbolic"@
    } else if ext == "mp3"@ || ext == "flac"@ || ext == "ogg"@ || ext == "wav"@ || ext == "m4a"@ || ext == "aac"@ {
        "audio-x-generic-symbolic"@
    } else if ext == "mp4"@ || ext == "mkv"@ || ext == "avi"@ || ext == "mov"@ || ext == "webm"@ {
        "video-x-generic-symbolic"@
    } else if ext == "zip"@ || ext == "tar"@ || ext == "gz"@ || ext == "bz2"@ || ext == "xz"@ || ext == "7z"@ || ext == "rar"@ {
        "package-x-generic-symbolic"@
    } else if ext == "pdf"@ {
        "x-office-document-symbolic"@
    } else if ext == "html"@ || ext == "htm"@ {
        "text-html-symbolic"@
    } else if ext == "css"@ || ext == "scss"@ {
        "text-x-preview-symbolic"@
    } else if ext == "md"@ {
        "x-office-document-symbolic"@
    } else if ext == "json"@ || ext == "toml"@ || ext == "yaml"@ || ext == "yml"@ || ext == "xml"@ {
        "emblem-system-symbolic"@
    } else if ext == "txt"@ || ext == "log"@ || ext == "csv"@ {
        "accessories-text-editor-symbolic"@
    } else if ext == "nix"@ {
        "emblem-system-symbolic"@
    } else {
        "text-x-generic-symbolic"@
    }
}

pub fn tree_icon_name_for_ext(ext: &str) -> (r: &'static str)
    ensures
        r@ == spec_tree_icon_name_for_ext(ext@),
{
    if str_eq(ext, "rs") {
        "text-x-script-symbolic"
    } else if str_eq(ext, "py") {
        "text-x-script-symbolic"
    } else if str_eq(ext, "js") || str_eq(ext, "ts") || str_eq(ext, "jsx") || str_eq(ext, "tsx") {
        "text-x-script-symbolic"
    } else if str_eq(ext, "c") || str_eq(ext, "cpp") || str_eq(ext, "h") {
        "text-x-script-symbolic"
    } else if str_eq(ext, "java") || str_eq(ext, "kt") {
        "text-x-script-symbolic"
    } else if str_eq(ext, "go") {
        "text-x-script-symbolic"
    } else if str_eq(ext, "rb") || str_eq(ext, "swift") || str_eq(ext, "cs") || str_eq(ext, "lua") {
        "text-x-script-symbolic"
    } else if str_eq(ext, "sh") || str_eq(ext, "fish") || str_eq(ext, "zsh") || str_eq(ext, "bash") {
        "application-x-executable-symbolic"
    } else if str_eq(ext, "png") || str_eq(ext, "jpg") || str_eq(ext, "jpeg") || str_eq(ext, "gif") || str_eq(ext, "svg") || str_eq(ext, "webp") || str_eq(ext, "bmp") || str_eq(ext, "ico") {
        "image-x-generic-symbolic"
    } else if str_eq(ext, "mp3") || str_eq(ext, "flac") || str_eq(ext, "ogg") || str_eq(ext, "wav") || str_eq(ext, "m4a") || str_eq(ext, "aac") {
        "audio-x-generic-symbolic"
    } else if str_eq(ext, "mp4") || str_eq(ext, "mkv") || str_eq(ext, "avi") || str_eq(ext, "mov") || str_eq(ext, "webm") {
        "video-x-generic-symbolic"
    } else if str_eq(ext, "zip") || str_eq(ext, "tar") || str_eq(ext, "gz") || str_eq(ext, "bz2") || str_eq(ext, "xz") || str_eq(ext, "7z") || str_eq(ext, "rar") {
        "package-x-generic-symbolic"
    } else if str_eq(ext, "pdf") {
        "x-office-document-symbolic"
    } else if str_eq(ext, "html") || str_eq(ext, "htm") {
        "text-html-symbolic"
    } else if str_eq(ext, "css") || str_eq(ext, "scss") {
        "text-x-preview-symbolic"
    } else if str_eq(ext, "md") {
        "x-office-document-symbolic"
    } else if str_eq(ext, "json") || str_eq(ext, "toml") || str_eq(ext, "yaml") || str_eq(ext, "yml") || str_eq(ext, "xml") {
        "emblem-system-symbolic"
    } else if str_eq(ext, "txt") || str_eq(ext, "log") || str_eq(ext, "csv") {
        "accessories-text-editor-symbolic"
    } else if str_eq(ext, "nix") {
        "emblem-system-symbolic"
    } else {
        "text-x-generic-symbolic"
    }
}

/// The directory icon of each icon theme.
pub open spec fn spec_dir_icon(theme: IconTheme) -> Seq<char> {
    match theme {
        IconTheme::Minimal => "folder-symbolic"@,
        IconTheme::Colorful => "folder"@,
        IconTheme::Outline => "folder-open-symbolic"@,
    }
}

pub fn dir_icon(theme: &IconTheme) -> (r: &'static str)
    ensures
        r@ == spec_dir_icon(*theme),
{
    match theme {
        IconTheme::Minimal => "folder-symbolic",
        IconTheme::Colorful => "folder",
        IconTheme::Outline => "folder-open-symbolic",
    }
}

/// The icon of an entry under the given icon theme.
pub open spec fn spec_icon_for_entry_themed(e: Entry, theme: IconTheme) -> Seq<char> {
    if e.is_dir {
        spec_dir_icon(theme)
    } else {
        match theme {
            IconTheme::Minimal => spec_minimal_icon(e.extension@),
            IconTheme::Colorful => spec_colorful_icon(e.extension@),
            IconTheme::Outline => spec_outline_icon(e.extension@),
        }
    }
}

pub fn icon_for_entry_themed(entry: &Entry, theme: &IconTheme) -> (r: &'static str)
    ensures
        r@ == spec_icon_for_entry_themed(*entry, *theme),
{
    if entry.is_dir {
        return dir_icon(theme);
    }
    match theme {
        IconTheme::Minimal => minimal_icon(entry.extension.as_str()),
        IconTheme::Colorful => colorful_icon(entry.extension.as_str()),
        IconTheme::Outline => outline_icon(entry.extension.as_str()),
    }
}

/// The icon of an entry under the default (Minimal) icon theme.
pub fn icon_for_entry(entry: &Entry) -> (r: &'static str)
    ensures
        r@ == spec_icon_for_entry_themed(*entry, IconTheme::Minimal),
{
    icon_for_entry_themed(entry, &IconTheme::Minimal)
}

/// The CSS class that tints an entry's icon.
pub fn icon_css_class(entry: &Entry) -> (r: &'static str)
    ensures
        entry.is_dir ==> r@ == "icon-folder"@,
        !entry.is_dir ==> r@ == spec_icon_class_for_ext(entry.extension@),
{
    if entry.is_dir {
        return "icon-folder";
    }
    icon_class_for_ext(entry.extension.as_str())
}

/// The icon the tree sidebar shows for an entry.
pub fn tree_icon_name(entry: &Entry) -> (r: &'static str)
    ensures
        entry.is_dir ==> r@ == "folder-symbolic"@,
        !entry.is_dir ==> r@ == spec_tree_icon_name_for_ext(entry.extension@),
{
    if entry.is_dir {
        return "folder-symbolic";
    }
    tree_icon_name_for_ext(entry.extension.as_str())
}

} // verus!
