//! Turning an embedded RAW thumbnail into a picture.
use vstd::prelude::*;

use crate::imaging::{
    buffer_len, decoded, dims_of, gray_picture, image_error_message, load_picture, message,
    raw_model, rgb_picture, rgba_picture, well_formed, ColorKind, Picture, PixelModel,
};
use crate::text::{decimal_string, decimal_text, starts_with};
use crate::thumbs::{ThumbKind, Thumbnail};

verus! {

/// The high (second) byte of every complete pair of `data`: the 8-bit
/// reduction of little-endian 16-bit samples.
pub open spec fn high_bytes_of(data: Seq<u8>) -> Seq<u8> {
    Seq::new(data.len() / 2, |i: int| data[2 * i + 1])
}

/// Keeps the second byte of every complete pair of bytes, as
/// `data.chunks_exact(2).map(|chunk| chunk[1])` does.
pub fn high_bytes(data: &[u8]) -> (out: Vec<u8>)
    ensures
        out@ == high_bytes_of(data@),
{
    let len = data.len();
    let n = len / 2;
    let mut out: Vec<u8> = Vec::new();
    for i in 0..n
        invariant
            len == data@.len(),
            n == len / 2,
            out@.len() == i,
            forall|j: int| 0 <= j < i ==> out@[j] == data@[2 * j + 1],
    {
        assert(i * 2 + 1 < data@.len());
        let k: usize = i * 2 + 1;
        out.push(data[k]);
    }
    assert(out@ =~= high_bytes_of(data@));
    out
}

/// The number of channels of a supported bitmap thumbnail (gray, RGB,
/// RGBA).
pub open spec fn supported_colors(colors: u16) -> bool {
    colors == 1 || colors == 3 || colors == 4
}

/// The 8-bit layout of a bitmap of 1, 3 or 4 channels.
pub open spec fn bitmap_color(colors: u16) -> ColorKind {
    if colors == 1 {
        ColorKind::L8
    } else if colors == 3 {
        ColorKind::Rgb8
    } else {
        ColorKind::Rgba8
    }
}

/// The picture that a thumbnail decodes to, or `None` when it does not
/// decode: JPEG goes by the image decoder; an 8-bit bitmap of 1, 3 or 4
/// channels needs `colors * width * height` bytes and is taken as it is; a
/// 16-bit bitmap needs that many complete byte pairs and is taken by the
/// second byte of each pair.
pub open spec fn thumb_model(t: Thumbnail) -> Option<PixelModel> {
    match t.format {
        ThumbKind::Jpeg => decoded(t.data@),
        ThumbKind::Bitmap => if supported_colors(t.colors) && buffer_len(
            t.width,
            t.height,
            t.colors as int,
        ) <= t.data@.len() {
            Some(raw_model(t.width, t.height, bitmap_color(t.colors), t.data@))
        } else {
            None
        },
        ThumbKind::Bitmap16 => if supported_colors(t.colors) && buffer_len(
            t.width,
            t.height,
            t.colors as int,
        ) <= t.data@.len() / 2 {
            Some(raw_model(t.width, t.height, bitmap_color(t.colors), high_bytes_of(t.data@)))
        } else {
            None
        },
        _ => None,
    }
}

/// The size of the picture that a thumbnail decodes to, or `None`.
pub open spec fn thumb_decoded_size(t: Thumbnail) -> Option<(u32, u32)> {
    match thumb_model(t) {
        Some(m) => Some(dims_of(m)),
        None => None,
    }
}

/// The name of a thumbnail encoding, as its `Debug` form spells it.
pub open spec fn kind_name(k: ThumbKind) -> Seq<char> {
    match k {
        ThumbKind::Unknown => "Unknown"@,
        ThumbKind::Jpeg => "Jpeg"@,
        ThumbKind::Bitmap => "Bitmap"@,
        ThumbKind::Bitmap16 => "Bitmap16"@,
        ThumbKind::Layer => "Layer"@,
        ThumbKind::Rollei => "Rollei"@,
        ThumbKind::H265 => "H265"@,
    }
}

fn thumb_kind_name(k: ThumbKind) -> (s: &'static str)
    ensures
        s@ == kind_name(k),
{
    match k {
        ThumbKind::Unknown => "Unknown",
        ThumbKind::Jpeg => "Jpeg",
        ThumbKind::Bitmap => "Bitmap",
        ThumbKind::Bitmap16 => "Bitmap16",
        ThumbKind::Layer => "Layer",
        ThumbKind::Rollei => "Rollei",
        ThumbKind::H265 => "H265",
    }
}

/// The error that a non-JPEG thumbnail that does not decode is reported
/// with.
pub open spec fn thumb_error(t: Thumbnail) -> Seq<char> {
    match t.format {
        ThumbKind::Bitmap => if t.colors == 1 {
            "Failed to create grayscale RAW thumbnail buffer"@
        } else if t.colors == 3 {
            "Failed to create RGB RAW thumbnail buffer"@
        } else if t.colors == 4 {
            "Failed to create RGBA RAW thumbnail buffer"@
        } else {
            "Unsupported RAW thumbnail bitmap color count: "@ + decimal_text(t.colors as nat)
        },
        ThumbKind::Bitmap16 => if t.colors == 1 {
            "Failed to create 16-bit grayscale RAW thumbnail buffer"@
        } else if t.colors == 3 {
            "Failed to create 16-bit RGB RAW thumbnail buffer"@
        } else if t.colors == 4 {
            "Failed to create 16-bit RGBA RAW thumbnail buffer"@
        } else {
            "Unsupported 16-bit RAW thumbnail color count: "@ + decimal_text(t.colors as nat)
        },
        _ => "Unsupported RAW thumbnail format: "@ + kind_name(t.format),
    }
}

/// A picture of `colors` channels (1, 3 or 4) over the leading
/// `colors * width * height` bytes of `data`; the bytes after them are
/// dropped, so that the picture's buffer holds exactly its pixels.
pub(crate) fn bitmap_picture(width: u32, height: u32, colors: u16, data: Vec<u8>) -> (r: Option<
    Picture,
>)
    requires
        supported_colors(colors),
    ensures
        r is Some <==> buffer_len(width, height, colors as int) <= data@.len(),
        r matches Some(p) ==> p@ == raw_model(width, height, bitmap_color(colors), data@) && well_formed(p@),
{
    assert(colors as u128 * width as u128 <= 0xffff_ffff_ffff_ffffu128) by (nonlinear_arith)
        requires
            colors <= 0xffff,
            width <= 0xffff_ffffu32,
    ;
    assert(colors as u128 * width as u128 * height as u128 <= 0xffff_ffff_ffff_ffffu128
        * 0xffff_ffffu128) by (nonlinear_arith)
        requires
            colors as u128 * width as u128 <= 0xffff_ffff_ffff_ffffu128,
            height <= 0xffff_ffffu32,
    ;
    let need: u128 = colors as u128 * width as u128 * height as u128;
    assert(need == buffer_len(width, height, colors as int)) by (nonlinear_arith)
        requires
            need == colors as u128 * width as u128 * height as u128,
    ;
    let ghost whole = data@;
    let mut data = data;
    if need <= data.len() as u128 {
        data.truncate(need as usize);
        assert(data@ =~= whole.take(buffer_len(width, height, colors as int)));
    }
    if colors == 1 {
        gray_picture(width, height, data)
    } else if colors == 3 {
        rgb_picture(width, height, data)
    } else {
        rgba_picture(width, height, data)
    }
}

/// Decodes an embedded thumbnail: JPEG data through the image decoder,
/// 8-bit bitmaps as they are, 16-bit bitmaps by their high bytes. It
/// succeeds exactly when `thumb_model` is `Some`, with that picture.
/// A JPEG decoder error is reported as `Failed to decode JPEG RAW
/// thumbnail: ` and its text; any other failure as `thumb_error`.
pub fn decode_thumb_image(thumb: &Thumbnail) -> (r: Result<Picture, String>)
    ensures
        match thumb_model(*thumb) {
            Some(m) => r matches Ok(p) && p@ == m && well_formed(m),
            None => r is Err,
        },
        r matches Err(e) ==> if thumb.format == ThumbKind::Jpeg {
            starts_with(e@, "Failed to decode JPEG RAW thumbnail: "@)
        } else {
            e@ == thumb_error(*thumb)
        },
{
    match thumb.format {
        ThumbKind::Jpeg => match load_picture(thumb.data.as_slice()) {
            Ok(p) => Ok(p),
            Err(e) => Err(image_error_message("Failed to decode JPEG RAW thumbnail: ", &e)),
        },
        ThumbKind::Bitmap => {
            if thumb.colors == 1 || thumb.colors == 3 || thumb.colors == 4 {
                let data = thumb.data.clone();
                match bitmap_picture(thumb.width, thumb.height, thumb.colors, data) {
                    Some(p) => Ok(p),
                    None => {
                        if thumb.colors == 1 {
                            Err(String::from_str("Failed to create grayscale RAW thumbnail buffer"))
                        } else if thumb.colors == 3 {
                            Err(String::from_str("Failed to create RGB RAW thumbnail buffer"))
                        } else {
                            Err(String::from_str("Failed to create RGBA RAW thumbnail buffer"))
                        }
                    },
                }
            } else {
                let n = decimal_string(thumb.colors as u64);
                Err(message("Unsupported RAW thumbnail bitmap color count: ", n.as_str()))
            }
        },
        ThumbKind::Bitmap16 => {
            if thumb.colors == 1 || thumb.colors == 3 || thumb.colors == 4 {
                let data = high_bytes(thumb.data.as_slice());
                match bitmap_picture(thumb.width, thumb.height, thumb.colors, data) {
                    Some(p) => Ok(p),
                    None => {
                        if thumb.colors == 1 {
                            Err(
                                String::from_str(
                                    "Failed to create 16-bit grayscale RAW thumbnail buffer",
                                ),
                            )
                        } else if thumb.colors == 3 {
                            Err(String::from_str("Failed to create 16-bit RGB RAW thumbnail buffer"))
                        } else {
                            Err(
                                String::from_str("Failed to create 16-bit RGBA RAW thumbnail buffer"),
                            )
                        }
                    },
                }
            } else {
                let n = decimal_string(thumb.colors as u64);
                Err(message("Unsupported 16-bit RAW thumbnail color count: ", n.as_str()))
            }
        },
        _ => {
            let name = thumb_kind_name(thumb.format);
            Err(message("Unsupported RAW thumbnail format: ", name))
        },
    }
}

} // verus!
