//! Node colours: a category tint per file type, channels in permille.

use vstd::prelude::*;
use crate::graph::NodeColor;
use crate::strutil::str_eq;

verus! {

/// The colour of every directory node.
pub open spec fn dir_color_spec() -> NodeColor {
    NodeColor { r: 540, g: 710, b: 980 }
}

pub fn dir_color() -> (c: NodeColor)
    ensures
        c == dir_color_spec(),
        c.wf(),
{
    NodeColor { r: 540, g: 710, b: 980 }
}

/// The category tint for a file extension.
pub open spec fn file_color_spec(ext: Seq<char>) -> NodeColor {
    if ext == "rs"@ {
        NodeColor { r: 870, g: 520, b: 260 }
    } else if ext == "py"@ {
        NodeColor { r: 360, g: 650, b: 850 }
    } else if ext == "js"@ || ext == "ts"@ {
        NodeColor { r: 950, g: 850, b: 300 }
    } else if ext == "c"@ || ext == "cpp"@ || ext == "h"@ {
        NodeColor { r: 400, g: 600, b: 800 }
    } else if ext == "png"@ || ext == "jpg"@ || ext == "jpeg"@ || ext == "gif"@ || ext
        == "svg"@ || ext == "webp"@ {
        NodeColor { r: 650, g: 850, b: 550 }
    } else if ext == "mp3"@ || ext == "flac"@ || ext == "ogg"@ || ext == "wav"@ {
        NodeColor { r: 800, g: 550, b: 800 }
    } else if ext == "mp4"@ || ext == "mkv"@ || ext == "avi"@ || ext == "mov"@ || ext
        == "webm"@ {
        NodeColor { r: 900, g: 450, b: 450 }
    } else if ext == "md"@ || ext == "txt"@ || ext == "log"@ {
        NodeColor { r: 700, g: 700, b: 750 }
    } else if ext == "json"@ || ext == "toml"@ || ext == "yaml"@ || ext == "yml"@ || ext
        == "xml"@ {
        NodeColor { r: 550, g: 780, b: 650 }
    } else {
        NodeColor { r: 600, g: 600, b: 650 }
    }
}

pub fn file_color_for_ext(ext: &str) -> (c: NodeColor)
    ensures
        c == file_color_spec(ext@),
        c.wf(),
{
    if str_eq(ext, "rs") {
        NodeColor { r: 870, g: 520, b: 260 }
    } else if str_eq(ext, "py") {
        NodeColor { r: 360, g: 650, b: 850 }
    } else if str_eq(ext, "js") || str_eq(ext, "ts") {
        NodeColor { r: 950, g: 850, b: 300 }
    } else if str_eq(ext, "c") || str_eq(ext, "cpp") || str_eq(ext, "h") {
        NodeColor { r: 400, g: 600, b: 800 }
    } else if str_eq(ext, "png") || str_eq(ext, "jpg") || str_eq(ext, "jpeg") || str_eq(
        ext,
        "gif",
    ) || str_eq(ext, "svg") || str_eq(ext, "webp") {
        NodeColor { r: 650, g: 850, b: 550 }
    } else if str_eq(ext, "mp3") || str_eq(ext, "flac") || str_eq(ext, "ogg") || str_eq(
        ext,
        "wav",
    ) {
        NodeColor { r: 800, g: 550, b: 800 }
    } else if str_eq(ext, "mp4") || str_eq(ext, "mkv") || str_eq(ext, "avi") || str_eq(
        ext,
        "mov",
    ) || str_eq(ext, "webm") {
        NodeColor { r: 900, g: 450, b: 450 }
    } else if str_eq(ext, "md") || str_eq(ext, "txt") || str_eq(ext, "log") {
        NodeColor { r: 700, g: 700, b: 750 }
    } else if str_eq(ext, "json") || str_eq(ext, "toml") || str_eq(ext, "yaml") || str_eq(
        ext,
        "yml",
    ) || str_eq(ext, "xml") {
        NodeColor { r: 550, g: 780, b: 650 }
    } else {
        NodeColor { r: 600, g: 600, b: 650 }
    }
}

} // verus!
