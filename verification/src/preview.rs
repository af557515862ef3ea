//! Media-preview support: which files can show an inline preview, decided
//! from the path's extension alone.

use vstd::prelude::*;
use crate::strutil::{last_slash_before, str_eq};
use crate::trusted::{lower_of, lowercase};

verus! {

/// Index of the last `.` in `[lo, e)`, or -1 if none.
pub open spec fn last_dot_in(cs: Seq<char>, lo: int, e: int) -> int
    decreases e - lo,
{
    if e <= lo {
        -1
    } else if cs[e - 1] == '.' {
        e - 1
    } else {
        last_dot_in(cs, lo, e - 1)
    }
}

/// The extension of a path: what follows the last `.` of its final
/// component, where a dot opening the component (a hidden file) does not
/// count; empty when there is none.
pub open spec fn ext_spec(cs: Seq<char>) -> Seq<char> {
    let lo = last_slash_before(cs, cs.len()) + 1;
    let d = last_dot_in(cs, lo + 1, cs.len() as int);
    if d == -1 {
        Seq::empty()
    } else {
        cs.subrange(d + 1, cs.len() as int)
    }
}

/// Extract the extension of a path-like string.
pub fn extension_of(path: &str) -> (r: &str)
    ensures
        r@ == ext_spec(path@),
{
    let n = path.unicode_len();
    let mut s = n;
    while s > 0 && path.get_char(s - 1) != '/'
        invariant
            s <= n,
            n == path@.len(),
            last_slash_before(path@, n as nat) == last_slash_before(path@, s as nat),
        decreases s,
    {
        s -= 1;
    }
    let lo = s;
    let mut d = n;
    while d > 0 && d - 1 > lo && path.get_char(d - 1) != '.'
        invariant
            lo <= d,
            d <= n,
            n == path@.len(),
            last_dot_in(path@, lo as int + 1, n as int) == last_dot_in(
                path@,
                lo as int + 1,
                d as int,
            ),
        decreases d,
    {
        d -= 1;
    }
    if d > 0 && d - 1 > lo {
        path.substring_char(d, n)
    } else {
        proof {
            assert(path@.subrange(n as int, n as int) =~= Seq::<char>::empty());
        }
        path.substring_char(n, n)
    }
}

/// Image formats the preview pane can decode.
pub open spec fn spec_is_image(ext: Seq<char>) -> bool {
    ext == "png"@ || ext == "jpg"@ || ext == "jpeg"@ || ext == "gif"@ || ext == "bmp"@ || ext
        == "webp"@ || ext == "svg"@ || ext == "ico"@
}

pub fn is_image(ext: &str) -> (r: bool)
    ensures
        r == spec_is_image(ext@),
{
    str_eq(ext, "png") || str_eq(ext, "jpg") || str_eq(ext, "jpeg") || str_eq(ext, "gif")
        || str_eq(ext, "bmp") || str_eq(ext, "webp") || str_eq(ext, "svg") || str_eq(
        ext,
        "ico",
    )
}

/// Video formats the preview pane recognises.
pub open spec fn spec_is_video(ext: Seq<char>) -> bool {
    ext == "mp4"@ || ext == "mkv"@ || ext == "avi"@ || ext == "mov"@ || ext == "webm"@
}

pub fn is_video(ext: &str) -> (r: bool)
    ensures
        r == spec_is_video(ext@),
{
    str_eq(ext, "mp4") || str_eq(ext, "mkv") || str_eq(ext, "avi") || str_eq(ext, "mov")
        || str_eq(ext, "webm")
}

/// Does the file at `path` support a media preview? Decided on the
/// lowercased extension.
pub fn supports_preview(path: &str) -> (r: bool)
    ensures
        r == (spec_is_image(lower_of(ext_spec(path@))) || spec_is_video(
            lower_of(ext_spec(path@)),
        )),
{
    let ext = extension_of(path);
    let low = lowercase(ext);
    is_image(low.as_str()) || is_video(low.as_str())
}

} // verus!
