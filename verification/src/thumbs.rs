//! Thumbnail cache key derivation and path layout.
//!
//! A cached thumbnail lives at `<cache_dir>/<key>.png`, where the key is
//! the lowercase-hex SHA-256 of the source's canonical path together with
//! its modification time, so editing the file invalidates its thumbnail.
//! Reading metadata and touching the disk is the caller's business; the
//! library derives keys and paths from plain values.

use vstd::prelude::*;
use vstd::string::{StringExecFns, StrSliceExecFns, StringSliceAdditionalSpecFns};
use crate::strutil::{hex_of, str_eq};
use crate::trusted::{sha256, sha256_of};

verus! {

/// Thumbnail pixel width.
pub const THUMB_WIDTH: u32 = 192;

/// Thumbnail pixel height.
pub const THUMB_HEIGHT: u32 = 192;

/// Can files with this (lowercased) extension get an image thumbnail?
pub open spec fn spec_is_thumbable_image(ext: Seq<char>) -> bool {
    ext == "png"@ || ext == "jpg"@ || ext == "jpeg"@ || ext == "gif"@ || ext == "bmp"@ || ext
        == "webp"@ || ext == "ico"@
}

pub fn is_thumbable_image(ext: &str) -> (r: bool)
    ensures
        r == spec_is_thumbable_image(ext@),
{
    str_eq(ext, "png") || str_eq(ext, "jpg") || str_eq(ext, "jpeg") || str_eq(ext, "gif")
        || str_eq(ext, "bmp") || str_eq(ext, "webp") || str_eq(ext, "ico")
}

/// Can files with this extension get a video (frame-capture) thumbnail?
pub open spec fn spec_is_thumbable_video(ext: Seq<char>) -> bool {
    ext == "mp4"@ || ext == "mkv"@ || ext == "avi"@ || ext == "mov"@ || ext == "webm"@
}

pub fn is_thumbable_video(ext: &str) -> (r: bool)
    ensures
        r == spec_is_thumbable_video(ext@),
{
    str_eq(ext, "mp4") || str_eq(ext, "mkv") || str_eq(ext, "avi") || str_eq(ext, "mov")
        || str_eq(ext, "webm")
}

/// Can files with this extension get any thumbnail?
pub fn supports_thumbnail(ext: &str) -> (r: bool)
    ensures
        r == (spec_is_thumbable_image(ext@) || spec_is_thumbable_video(ext@)),
{
    is_thumbable_image(ext) || is_thumbable_video(ext)
}

/// The bytes hashed for a cache key: the canonical path's UTF-8 bytes
/// followed by the modification time in little-endian order.
pub open spec fn spec_key_material(path_bytes: Seq<u8>, mtime: u64) -> Seq<u8> {
    path_bytes + Seq::new(8, |i: int| ((mtime as int) / vstd::arithmetic::power2::pow2(
        (8 * i) as nat,
    ) as int % 256) as u8)
}

/// The cache key: lowercase hex of the SHA-256 of the key material.
pub open spec fn spec_cache_key(path_bytes: Seq<u8>, mtime: u64) -> Seq<char> {
    hex_of(sha256_of(spec_key_material(path_bytes, mtime)))
}

/// A handle on the thumbnail cache directory.
pub struct ThumbnailCache {
    pub cache_dir: String,
}

impl ThumbnailCache {
    /// A cache rooted at the given directory (the caller creates it).
    pub fn with_dir(cache_dir: String) -> (c: ThumbnailCache)
        ensures
            c.cache_dir == cache_dir,
    {
        ThumbnailCache { cache_dir }
    }

    /// The deterministic hex key for a source file, from its canonical
    /// path and modification time (seconds since the epoch).
    pub fn cache_key(&self, canonical_path: &str, mtime: u64) -> (r: String)
        ensures
            r@ == spec_cache_key(canonical_path.spec_bytes(), mtime),
    {
        let mut data: Vec<u8> = canonical_path.as_bytes_vec();
        let ghost pb = data@;
        let mut t = mtime;
        proof {
            vstd::arithmetic::power2::lemma2_to64();
            assert((mtime as int) / (vstd::arithmetic::power2::pow2(0) as int) == mtime
                as int);
        }
        let mut i: usize = 0;
        while i < 8
            invariant
                i <= 8,
                data@.len() == pb.len() + i,
                forall|k: int| 0 <= k < pb.len() ==> data@[k] == pb[k],
                t == (mtime as int) / vstd::arithmetic::power2::pow2((8 * i) as nat) as int,
                forall|k: int|
                    0 <= k < i ==> (#[trigger] data@[pb.len() + k]) == ((mtime as int)
                        / vstd::arithmetic::power2::pow2((8 * k) as nat) as int % 256) as u8,
            decreases 8 - i,
        {
            let b = (t % 256) as u8;
            data.push(b);
            proof {
                vstd::arithmetic::power2::lemma_pow2_adds((8 * i) as nat, 8);
                vstd::arithmetic::power2::lemma_pow2_pos((8 * i) as nat);
                vstd::arithmetic::power2::lemma_pow2_pos((8 * i + 8) as nat);
                vstd::arithmetic::power2::lemma2_to64();
                vstd::arithmetic::div_mod::lemma_div_denominator(
                    mtime as int,
                    vstd::arithmetic::power2::pow2((8 * i) as nat) as int,
                    256,
                );
            }
            t = t / 256;
            i += 1;
        }
        proof {
            assert forall|j: int|
                0 <= j < data@.len() implies data@[j] == spec_key_material(pb, mtime)[j] by {
                if j >= pb.len() {
                    let k = j - pb.len();
                    assert(data@[pb.len() + k] == ((mtime as int)
                        / vstd::arithmetic::power2::pow2((8 * k) as nat) as int % 256) as u8);
                }
            }
            assert(data@ =~= spec_key_material(pb, mtime));
        }
        let digest = sha256(&data);
        crate::trusted::hex_encode(&digest)
    }

    /// Where the thumbnail for this source belongs:
    /// `<cache_dir>/<key>.png`.
    pub fn thumb_path(&self, canonical_path: &str, mtime: u64) -> (r: String)
        ensures
            r@ == self.cache_dir@ + "/"@ + spec_cache_key(canonical_path.spec_bytes(), mtime)
                + ".png"@,
    {
        let key = self.cache_key(canonical_path, mtime);
        let mut s = self.cache_dir.clone();
        s.append("/");
        s.append(key.as_str());
        s.append(".png");
        s
    }
}

} // verus!
