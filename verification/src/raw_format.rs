//! RAW file families, told apart by extension, and the preview policy that
//! each family gets.
use vstd::prelude::*;

use crate::extension::{extension_chars, path_extension};
use crate::text::chars_equal_str;

verus! {

/// The family of a RAW (or RAW-like) file, as its extension tells it.
#[derive(Clone, Copy, Debug, PartialEq, Eq, Structural)]
pub enum RawFormat {
    /// Nikon `nef` and `nrw`.
    NefLike,
    /// Adobe `dng`.
    Dng,
    /// `tif` and `tiff` containers.
    TiffLike,
    /// Any other extension of the known RAW list.
    GenericRaw,
    /// Anything else.
    Unknown,
}

/// Where a preview comes from.
#[derive(Clone, Copy, Debug, PartialEq, Eq, Structural)]
pub enum PreviewStrategy {
    /// Prefer the camera-embedded preview: fast, and it keeps the in-camera
    /// rendering.
    EmbeddedFirst,
    /// Use the embedded preview only when it is large enough, else render
    /// from the RAW data.
    ProcessedWhenEmbeddedTooSmall,
}

/// The preview and thumbnail policy of a RAW family.
#[derive(Clone, Copy, Debug, PartialEq, Eq, Structural)]
pub struct RawProfile {
    pub preview_strategy: PreviewStrategy,
    pub prefer_jpeg_thumbnail: bool,
}

/// The extensions (lower case) of the RAW formats that the library knows.
pub open spec fn raw_image_extension_list() -> Seq<&'static str> {
    seq![
        "3fr", "ari", "arw", "bay", "cap", "cr2", "cr3", "crw", "dcr", "dcs", "dng", "drf", "eip",
        "erf", "fff", "gpr", "iiq", "k25", "kdc", "mdc", "mef", "mos", "mrw", "nef", "nrw", "orf",
        "pef", "ptx", "pxn", "r3d", "raf", "raw", "rw2", "rwl", "rwz", "sr2", "srf", "srw", "x3f"
    ]
}

/// Whether `ext` is one of the known RAW extensions.
pub open spec fn is_raw_image_extension(ext: Seq<char>) -> bool {
    exists|i: int| 0 <= i < raw_image_extension_list().len() && #[trigger] raw_image_extension_list()[i]@ == ext
}

/// The known RAW extensions, in an executable list.
fn raw_image_extensions() -> (list: Vec<&'static str>)
    ensures
        list@ == raw_image_extension_list(),
{
    let list = vec![
        "3fr", "ari", "arw", "bay", "cap", "cr2", "cr3", "crw", "dcr", "dcs", "dng", "drf", "eip",
        "erf", "fff", "gpr", "iiq", "k25", "kdc", "mdc", "mef", "mos", "mrw", "nef", "nrw", "orf",
        "pef", "ptx", "pxn", "r3d", "raf", "raw", "rw2", "rwl", "rwz", "sr2", "srf", "srw", "x3f",
    ];
    assert(list@ =~= raw_image_extension_list());
    list
}

/// Whether the (lower-case) extension `ext` is one of the known RAW ones.
pub fn raw_image_extension(ext: &[char]) -> (found: bool)
    ensures
        found == is_raw_image_extension(ext@),
{
    let list = raw_image_extensions();
    for i in 0..list.len()
        invariant
            list@ == raw_image_extension_list(),
            forall|j: int| 0 <= j < i ==> #[trigger] list@[j]@ != ext@,
    {
        if chars_equal_str(ext, list[i]) {
            return true;
        }
    }
    false
}

/// The family of a file with (lower-cased) extension `ext`.
pub open spec fn raw_format_of(ext: Option<Seq<char>>) -> RawFormat {
    match ext {
        Some(e) => if e == "nef"@ || e == "nrw"@ {
            RawFormat::NefLike
        } else if e == "dng"@ {
            RawFormat::Dng
        } else if e == "tif"@ || e == "tiff"@ {
            RawFormat::TiffLike
        } else if is_raw_image_extension(e) {
            RawFormat::GenericRaw
        } else {
            RawFormat::Unknown
        },
        None => RawFormat::Unknown,
    }
}

/// The family of the file at `file_path`, by its extension (case is
/// ignored).
pub fn resolve_raw_format(file_path: &str) -> (format: RawFormat)
    ensures
        format == raw_format_of(path_extension(file_path@)),
{
    match extension_chars(file_path) {
        Some(ext) => {
            let e = ext.as_slice();
            if chars_equal_str(e, "nef") || chars_equal_str(e, "nrw") {
                RawFormat::NefLike
            } else if chars_equal_str(e, "dng") {
                RawFormat::Dng
            } else if chars_equal_str(e, "tif") || chars_equal_str(e, "tiff") {
                RawFormat::TiffLike
            } else if raw_image_extension(e) {
                RawFormat::GenericRaw
            } else {
                RawFormat::Unknown
            }
        },
        None => RawFormat::Unknown,
    }
}

/// The policy of a RAW family: the families of the generic list prefer the
/// embedded preview; Nikon, DNG, TIFF-like and unknown files fall back to a
/// rendered preview when the embedded one is too small. All prefer JPEG
/// thumbnails.
pub open spec fn profile_of(format: RawFormat) -> RawProfile {
    match format {
        RawFormat::GenericRaw => RawProfile {
            preview_strategy: PreviewStrategy::EmbeddedFirst,
            prefer_jpeg_thumbnail: true,
        },
        _ => RawProfile {
            preview_strategy: PreviewStrategy::ProcessedWhenEmbeddedTooSmall,
            prefer_jpeg_thumbnail: true,
        },
    }
}

/// The preview policy for the file at `file_path`.
pub fn resolve_raw_profile(file_path: &str) -> (profile: RawProfile)
    ensures
        profile == profile_of(raw_format_of(path_extension(file_path@))),
{
    match resolve_raw_format(file_path) {
        RawFormat::GenericRaw => RawProfile {
            preview_strategy: PreviewStrategy::EmbeddedFirst,
            prefer_jpeg_thumbnail: true,
        },
        RawFormat::NefLike | RawFormat::Dng | RawFormat::TiffLike => RawProfile {
            preview_strategy: PreviewStrategy::ProcessedWhenEmbeddedTooSmall,
            prefer_jpeg_thumbnail: true,
        },
        RawFormat::Unknown => RawProfile {
            preview_strategy: PreviewStrategy::ProcessedWhenEmbeddedTooSmall,
            prefer_jpeg_thumbnail: true,
        },
    }
}

/// Whether `file_path` names a TIFF container (`.tif` or `.tiff`, in any
/// case).
pub fn is_tiff_path(file_path: &str) -> (tiff: bool)
    ensures
        tiff == (raw_format_of(path_extension(file_path@)) == RawFormat::TiffLike),
{
    resolve_raw_format(file_path) == RawFormat::TiffLike
}

/// A path is a TIFF path exactly when its lower-cased extension is `tif`
/// or `tiff`.
pub proof fn lemma_tiff_extensions(p: Seq<char>)
    ensures
        (raw_format_of(path_extension(p)) == RawFormat::TiffLike) <==> (path_extension(p) == Some(
            "tif"@,
        ) || path_extension(p) == Some("tiff"@)),
{
    reveal_strlit("tif");
    reveal_strlit("tiff");
    reveal_strlit("nef");
    reveal_strlit("nrw");
    reveal_strlit("dng");
    assert("tif"@[0] != "nef"@[0] && "tif"@[0] != "nrw"@[0] && "tif"@[0] != "dng"@[0]);
    assert("tiff"@.len() != "nef"@.len());
}

/// Only files of the generic RAW list get their embedded preview first;
/// every family prefers JPEG thumbnails.
pub proof fn lemma_profile_policy(p: Seq<char>)
    ensures
        profile_of(raw_format_of(path_extension(p))).prefer_jpeg_thumbnail,
        (profile_of(raw_format_of(path_extension(p))).preview_strategy
            == PreviewStrategy::EmbeddedFirst) <==> (match path_extension(p) {
            Some(e) => is_raw_image_extension(e) && e != "nef"@ && e != "nrw"@ && e != "dng"@ && e
                != "tif"@ && e != "tiff"@,
            None => false,
        }),
{
}

} // verus!
