//! Previews, thumbnails and dimensions of RAW files.
//!
//! Reading a RAW file and running the RAW decoder happen outside this
//! library; it receives what they give (the RAW size, the embedded
//! thumbnails, the rendered image) and decides and builds the rest. A
//! preview or thumbnail request is answered in one or two steps: the first
//! step either finishes from an embedded thumbnail or asks for a rendered
//! image, and the second step finishes from that image.
use vstd::prelude::*;

use crate::decode::{
    bitmap_color, bitmap_picture, decode_thumb_image, supported_colors, thumb_decoded_size,
    thumb_model,
};
use crate::extension::path_extension;
use crate::imaging::{
    buffer_len, decoded, dims_of, encode_as_jpeg, image_error_message, is_jpeg_stream, jpeg_of,
    jpeg_size_ok, lemma_oriented_dims, load_picture, message, orient_image, oriented, raw_model,
    reads_back_at, resize_dims, resize_lanczos, resize_outcome, scale_thumbnail, thumbnailed,
    well_formed, Picture, PixelModel,
};
use crate::raw_format::{profile_of, raw_format_of, resolve_raw_profile, PreviewStrategy};
use crate::text::{decimal_string, decimal_text, starts_with};
use crate::thumbs::{
    edge_of, is_preview_thumb_large_enough, large_enough, preview_pick, select_preview_index,
    select_thumbnail_index, thumbnail_pick, Thumbnail,
};

verus! {

/// The encoding of an image rendered from RAW data.
#[derive(Clone, Copy, Debug, PartialEq, Eq, Structural)]
pub enum ProcessedKind {
    Jpeg,
    Bitmap,
}

/// An image rendered from RAW data at 8 bits per sample: its encoding, its
/// size, its number of channels and its bytes.
#[derive(Debug)]
pub struct ProcessedRaster {
    pub format: ProcessedKind,
    pub width: u32,
    pub height: u32,
    pub colors: u16,
    pub data: Vec<u8>,
}

/// What the first step of a preview or thumbnail request comes to.
#[derive(Debug)]
pub enum RawStep {
    /// The answer, built from an embedded thumbnail.
    Finished(Result<Option<Vec<u8>>, String>),
    /// An image rendered from the RAW data is needed; hand it to the
    /// matching `finish_` function.
    RenderProcessed,
}

/// Checks the size that the RAW decoder reports: both edges must be
/// positive.
pub fn get_raw_dimensions(width: u32, height: u32) -> (r: Result<(u32, u32), String>)
    ensures
        width > 0 && height > 0 ==> r == Ok::<(u32, u32), String>((width, height)),
        !(width > 0 && height > 0) ==> (r matches Err(e) && e@
            == "rsraw resolved empty RAW dimensions"@),
{
    if width > 0 && height > 0 {
        Ok((width, height))
    } else {
        Err(String::from_str("rsraw resolved empty RAW dimensions"))
    }
}

/// The picture that a rendered image decodes to, or `None`: JPEG data goes
/// by the image decoder; a bitmap of 1, 3 or 4 channels needs
/// `colors * width * height` bytes and is taken as it is.
pub open spec fn processed_model(p: ProcessedRaster) -> Option<PixelModel> {
    match p.format {
        ProcessedKind::Jpeg => decoded(p.data@),
        ProcessedKind::Bitmap => if supported_colors(p.colors) && buffer_len(
            p.width,
            p.height,
            p.colors as int,
        ) <= p.data@.len() {
            Some(raw_model(p.width, p.height, bitmap_color(p.colors), p.data@))
        } else {
            None
        },
    }
}

/// The size of the picture that a rendered image decodes to, or `None`.
pub open spec fn processed_decoded_size(p: ProcessedRaster) -> Option<(u32, u32)> {
    match processed_model(p) {
        Some(m) => Some(dims_of(m)),
        None => None,
    }
}

/// The JPEG bytes of `m`, when its size fits a JPEG.
pub open spec fn jpeg_if_fits(m: PixelModel) -> Option<Seq<u8>> {
    if jpeg_size_ok(dims_of(m)) {
        Some(jpeg_of(m))
    } else {
        None
    }
}

/// What holds of every picture `q` that `m` can become when scaled to fit
/// in `max_edge` x `max_edge` (`max_edge` positive), or `m` itself when
/// `max_edge` is zero.
pub open spec fn scaled_outcome(m: PixelModel, max_edge: u32, q: PixelModel) -> bool {
    if max_edge > 0 {
        resize_outcome(m, max_edge, max_edge, q)
    } else {
        q == m
    }
}

/// The size of `m` once scaled for `max_edge` as `scaled_outcome` says.
pub open spec fn scaled_dims(m: PixelModel, max_edge: u32) -> (u32, u32) {
    if max_edge > 0 {
        resize_dims(m, max_edge, max_edge)
    } else {
        dims_of(m)
    }
}

/// A rendered image can be made into a preview for `max_edge`: it decodes
/// and its scaled size fits a JPEG.
pub open spec fn render_ok(p: ProcessedRaster, max_edge: u32) -> bool {
    match processed_model(p) {
        Some(m) => jpeg_size_ok(scaled_dims(m, max_edge)),
        None => false,
    }
}

/// `b` is a JPEG preview that can be made from the rendered image `p`
/// scaled for `max_edge`: the JPEG bytes of one of the pictures that
/// scaling can give. With `max_edge` zero there is exactly one.
pub open spec fn rendered_preview(p: ProcessedRaster, max_edge: u32, b: Seq<u8>) -> bool {
    match processed_model(p) {
        Some(m) => exists|q: PixelModel|
            #[trigger] scaled_outcome(m, max_edge, q) && jpeg_size_ok(dims_of(q)) && b == jpeg_of(
                q,
            ),
        None => false,
    }
}

/// The oriented preview made from the rendered JPEG bytes `b`: what they
/// decode to, turned by EXIF `orientation`, encoded as JPEG.
pub open spec fn reoriented(b: Seq<u8>, orientation: i32) -> Option<Seq<u8>> {
    match decoded(b) {
        Some(q) => jpeg_if_fits(oriented(orientation, q)),
        None => None,
    }
}

/// The thumbnail made from the rendered JPEG bytes `b`: what they decode
/// to, turned by EXIF `orientation`, scaled to fit in a `size` high box,
/// encoded as JPEG.
pub open spec fn rethumbnailed(b: Seq<u8>, orientation: i32, size: u32) -> Option<Seq<u8>> {
    match decoded(b) {
        Some(q) => jpeg_if_fits(thumbnailed(oriented(orientation, q), u32::MAX, size)),
        None => None,
    }
}

/// `r` carries `Some` of exactly the bytes `expected` (a JPEG stream), or
/// fails when there are none.
pub open spec fn some_bytes_answer(r: Result<Option<Vec<u8>>, String>, expected: Option<Seq<u8>>) -> bool {
    &&& (r is Ok <==> expected is Some)
    &&& (r matches Ok(b) ==> (b matches Some(bytes) && Some(bytes@) == expected && is_jpeg_stream(
        bytes@,
    )))
}

/// The error that a rendered bitmap that does not decode is reported with.
pub open spec fn processed_error(p: ProcessedRaster) -> Seq<char> {
    if p.colors == 1 {
        "Failed to create processed grayscale RAW image"@
    } else if p.colors == 3 {
        "Failed to create processed RGB RAW image"@
    } else if p.colors == 4 {
        "Failed to create processed RGBA RAW image"@
    } else {
        "Unsupported processed RAW channel count: "@ + decimal_text(p.colors as nat)
    }
}

/// The way a rendered image that does not decode is reported.
pub open spec fn processed_failure(p: ProcessedRaster, e: Seq<char>) -> bool {
    if p.format == ProcessedKind::Jpeg {
        starts_with(e, "Failed to decode processed RAW JPEG preview: "@)
    } else {
        e == processed_error(p)
    }
}

/// The picture of a rendered image.
pub fn processed_picture(p: &ProcessedRaster) -> (r: Result<Picture, String>)
    ensures
        match processed_model(*p) {
            Some(m) => r matches Ok(pic) && pic@ == m && well_formed(m),
            None => r matches Err(e) && processed_failure(*p, e@),
        },
{
    match p.format {
        ProcessedKind::Jpeg => match load_picture(p.data.as_slice()) {
            Ok(pic) => Ok(pic),
            Err(e) => Err(image_error_message("Failed to decode processed RAW JPEG preview: ", &e)),
        },
        ProcessedKind::Bitmap => {
            if p.colors == 1 || p.colors == 3 || p.colors == 4 {
                match bitmap_picture(p.width, p.height, p.colors, p.data.clone()) {
                    Some(pic) => Ok(pic),
                    None => {
                        if p.colors == 1 {
                            Err(String::from_str("Failed to create processed grayscale RAW image"))
                        } else if p.colors == 3 {
                            Err(String::from_str("Failed to create processed RGB RAW image"))
                        } else {
                            Err(String::from_str("Failed to create processed RGBA RAW image"))
                        }
                    },
                }
            } else {
                let n = decimal_string(p.colors as u64);
                Err(message("Unsupported processed RAW channel count: ", n.as_str()))
            }
        },
    }
}

/// Builds a JPEG preview from a rendered image, scaled to fit in
/// `max_edge` x `max_edge` when `max_edge` is positive. It succeeds exactly
/// when `render_ok` holds, with the JPEG bytes of a picture that scaling
/// can give (`rendered_preview`; the scaled pixels themselves are not
/// stated), which decode, if at all, to the scaled size. Fails as
/// `processed_failure` says when the image does not decode, and with the
/// encoder's error when its size does not fit a JPEG.
pub fn render_processed_preview(processed: &ProcessedRaster, max_edge: u32) -> (r: Result<
    Vec<u8>,
    String,
>)
    ensures
        r is Ok <==> render_ok(*processed, max_edge),
        r matches Ok(b) ==> rendered_preview(*processed, max_edge, b@) && is_jpeg_stream(b@),
        r matches Ok(b) ==> (processed_model(*processed) matches Some(m) && reads_back_at(
            b@,
            scaled_dims(m, max_edge),
        )),
        match processed_model(*processed) {
            Some(_) => r matches Err(e) ==> starts_with(e@, "Failed to encode image as JPEG: "@),
            None => r matches Err(e) && processed_failure(*processed, e@),
        },
{
    let image = match processed_picture(processed) {
        Ok(pic) => pic,
        Err(e) => return Err(e),
    };
    let ghost m = image@;
    let image = if max_edge > 0 {
        resize_lanczos(&image, max_edge, max_edge)
    } else {
        image
    };
    assert(scaled_outcome(m, max_edge, image@));
    assert(dims_of(image@) == scaled_dims(m, max_edge));
    encode_as_jpeg(&image)
}

/// The ways the oriented rendered preview can fail once the rendered image
/// decodes: JPEG encoding, or decoding the JPEG just made.
pub open spec fn oriented_preview_failure(e: Seq<char>) -> bool {
    ||| starts_with(e, "Failed to encode image as JPEG: "@)
    ||| starts_with(e, "Failed to decode processed RAW preview: "@)
}

/// A JPEG preview rendered from RAW data: scaled to fit in 4096 x 4096,
/// encoded, decoded again, turned by EXIF `orientation` and encoded. Its
/// bytes are `reoriented` from a preview that `rendered_preview` allows;
/// it fails when the rendered image cannot be made into a preview
/// (`render_ok`), or else only when the image decoder refuses the bytes
/// just rendered.
pub fn render_oriented_processed_preview(processed: &ProcessedRaster, orientation: i32) -> (r:
    Result<Vec<u8>, String>)
    ensures
        r matches Ok(bytes) ==> is_jpeg_stream(bytes@) && exists|b: Seq<u8>|
            #[trigger] rendered_preview(*processed, 4096, b) && reoriented(b, orientation) == Some(
                bytes@,
            ),
        !render_ok(*processed, 4096) ==> r is Err,
        r is Err && render_ok(*processed, 4096) ==> exists|b: Seq<u8>|
            #[trigger] rendered_preview(*processed, 4096, b) && decoded(b) is None,
        match processed_model(*processed) {
            Some(_) => r matches Err(e) ==> oriented_preview_failure(e@),
            None => r matches Err(e) && processed_failure(*processed, e@),
        },
{
    let jpeg = match render_processed_preview(processed, 4096) {
        Ok(bytes) => bytes,
        Err(e) => return Err(e),
    };
    let image = match load_picture(jpeg.as_slice()) {
        Ok(pic) => pic,
        Err(e) => {
            assert(rendered_preview(*processed, 4096, jpeg@) && decoded(jpeg@) is None);
            return Err(image_error_message("Failed to decode processed RAW preview: ", &e));
        },
    };
    proof {
        lemma_oriented_dims(orientation, image@);
    }
    let image = orient_image(image, orientation);
    let r = encode_as_jpeg(&image);
    if let Ok(bytes) = &r {
        assert(rendered_preview(*processed, 4096, jpeg@) && reoriented(jpeg@, orientation) == Some(
            bytes@,
        ));
    }
    r
}

/// Whether a preview request is answered from an embedded thumbnail: the
/// thumbnails could be read, there is a preview thumbnail, the file's
/// policy lets it be used (always, or when it is large enough for the RAW
/// size), and it decodes.
pub open spec fn preview_uses_embedded(
    file_path: Seq<char>,
    raw_width: u32,
    raw_height: u32,
    thumbs: Option<Seq<Thumbnail>>,
) -> bool {
    match thumbs {
        Some(ts) => match preview_pick(ts) {
            Some(i) => {
                &&& (profile_of(raw_format_of(path_extension(file_path))).preview_strategy
                    == PreviewStrategy::EmbeddedFirst || large_enough(
                    edge_of(ts[i]),
                    raw_width,
                    raw_height,
                ))
                &&& thumb_decoded_size(ts[i]) is Some
            },
            None => false,
        },
        None => false,
    }
}

/// The picture of an embedded preview, turned by EXIF `orientation`, when
/// the preview request is answered from it.
pub open spec fn embedded_preview_model(
    file_path: Seq<char>,
    raw_width: u32,
    raw_height: u32,
    thumbs: Option<Seq<Thumbnail>>,
    orientation: i32,
) -> Option<PixelModel> {
    if preview_uses_embedded(file_path, raw_width, raw_height, thumbs) {
        match thumbs {
            Some(ts) => match preview_pick(ts) {
                Some(i) => match thumb_model(ts[i]) {
                    Some(m) => Some(oriented(orientation, m)),
                    None => None,
                },
                None => None,
            },
            None => None,
        }
    } else {
        None
    }
}

/// What a finished first step answers for the picture `m`: its JPEG bytes
/// when its size fits a JPEG, else the encoder's error.
pub open spec fn jpeg_answer(r: Result<Option<Vec<u8>>, String>, m: PixelModel) -> bool {
    &&& some_bytes_answer(r, jpeg_if_fits(m))
    &&& (r matches Err(e) ==> starts_with(e@, "Failed to encode image as JPEG: "@))
}

/// The thumbnails as a sequence, when they could be read.
pub open spec fn thumbs_view(thumbs: &Option<Vec<Thumbnail>>) -> Option<Seq<Thumbnail>> {
    match thumbs {
        Some(v) => Some(v@),
        None => None,
    }
}

/// First step of a preview request for the RAW file at `file_path`, of
/// size `raw_width` x `raw_height`, whose embedded thumbnails are `thumbs`
/// (`None` when they could not be read). The preview comes from the
/// embedded thumbnail exactly when `preview_uses_embedded` holds; it is
/// then turned by EXIF `orientation` and encoded as JPEG (the picture of
/// `embedded_preview_model`). Otherwise a rendered image is asked for.
pub fn get_raw_preview_image(
    file_path: &str,
    orientation: i32,
    raw_width: u32,
    raw_height: u32,
    thumbs: &Option<Vec<Thumbnail>>,
) -> (step: RawStep)
    ensures
        step is Finished <==> preview_uses_embedded(
            file_path@,
            raw_width,
            raw_height,
            thumbs_view(thumbs),
        ),
        step matches RawStep::Finished(r) ==> (embedded_preview_model(
            file_path@,
            raw_width,
            raw_height,
            thumbs_view(thumbs),
            orientation,
        ) matches Some(m) && jpeg_answer(r, m)),
{
    let profile = resolve_raw_profile(file_path);
    if let Some(ts) = thumbs {
        if let Some(i) = select_preview_index(ts.as_slice()) {
            let thumb = &ts[i];
            let should_use_embedded = match profile.preview_strategy {
                PreviewStrategy::EmbeddedFirst => true,
                PreviewStrategy::ProcessedWhenEmbeddedTooSmall => {
                    is_preview_thumb_large_enough(thumb, raw_width, raw_height)
                },
            };
            if should_use_embedded {
                if let Ok(image) = decode_thumb_image(thumb) {
                    let image = orient_image(image, orientation);
                    return RawStep::Finished(
                        match encode_as_jpeg(&image) {
                            Ok(bytes) => Ok(Some(bytes)),
                            Err(e) => Err(e),
                        },
                    );
                }
            }
        }
    }
    RawStep::RenderProcessed
}

/// Second step of a preview request: the oriented preview rendered from
/// `processed`, as `render_oriented_processed_preview` makes it.
pub fn finish_raw_preview(processed: &ProcessedRaster, orientation: i32) -> (r: Result<
    Option<Vec<u8>>,
    String,
>)
    ensures
        r matches Ok(v) ==> v matches Some(bytes) && is_jpeg_stream(bytes@) && exists|b: Seq<u8>|
            #[trigger] rendered_preview(*processed, 4096, b) && reoriented(b, orientation) == Some(
                bytes@,
            ),
        !render_ok(*processed, 4096) ==> r is Err,
        r is Err && render_ok(*processed, 4096) ==> exists|b: Seq<u8>|
            #[trigger] rendered_preview(*processed, 4096, b) && decoded(b) is None,
        match processed_model(*processed) {
            Some(_) => r matches Err(e) ==> oriented_preview_failure(e@),
            None => r matches Err(e) && processed_failure(*processed, e@),
        },
{
    match render_oriented_processed_preview(processed, orientation) {
        Ok(bytes) => Ok(Some(bytes)),
        Err(e) => Err(e),
    }
}

/// Whether a thumbnail request for edge `size` is answered from an
/// embedded thumbnail: the thumbnails could be read, one is chosen for the
/// size (preferring JPEG as the file's policy says), and it decodes.
pub open spec fn thumbnail_uses_embedded(
    file_path: Seq<char>,
    size: u32,
    thumbs: Option<Seq<Thumbnail>>,
) -> bool {
    match thumbs {
        Some(ts) => match thumbnail_pick(
            ts,
            size,
            profile_of(raw_format_of(path_extension(file_path))).prefer_jpeg_thumbnail,
        ) {
            Some(i) => thumb_decoded_size(ts[i as int]) is Some,
            None => false,
        },
        None => false,
    }
}

/// The picture of the chosen embedded thumbnail, turned by EXIF
/// `orientation` and scaled to fit in a `size` high box, when the
/// thumbnail request is answered from it.
pub open spec fn embedded_thumbnail_model(
    file_path: Seq<char>,
    size: u32,
    thumbs: Option<Seq<Thumbnail>>,
    orientation: i32,
) -> Option<PixelModel> {
    match thumbs {
        Some(ts) => match thumbnail_pick(
            ts,
            size,
            profile_of(raw_format_of(path_extension(file_path))).prefer_jpeg_thumbnail,
        ) {
            Some(i) => match thumb_model(ts[i as int]) {
                Some(m) => Some(thumbnailed(oriented(orientation, m), u32::MAX, size)),
                None => None,
            },
            None => None,
        },
        None => None,
    }
}

/// An embedded thumbnail is turned by EXIF `orientation` first and scaled
/// last: when the request is answered from the chosen thumbnail, whose
/// picture is `m`, the answer is what scaling to fit a `size` high box
/// makes of `m` once oriented.
pub proof fn lemma_embedded_thumbnail_oriented_then_scaled(
    file_path: Seq<char>,
    size: u32,
    ts: Seq<Thumbnail>,
    orientation: i32,
    i: usize,
    m: PixelModel,
)
    requires
        thumbnail_pick(
            ts,
            size,
            profile_of(raw_format_of(path_extension(file_path))).prefer_jpeg_thumbnail,
        ) == Some(i),
        thumb_model(ts[i as int]) == Some(m),
    ensures
        embedded_thumbnail_model(file_path, size, Some(ts), orientation) matches Some(t)
            && exists|q: PixelModel| #[trigger] thumbnailed(q, u32::MAX, size) == t && q == oriented(
            orientation,
            m,
        ),
{
    assert(thumbnailed(oriented(orientation, m), u32::MAX, size) == thumbnailed(
        oriented(orientation, m),
        u32::MAX,
        size,
    ));
}

/// A thumbnail made from a rendered preview is likewise oriented first and
/// scaled last: its bytes are the JPEG of what scaling to fit a `size` high
/// box makes of the decoded preview once oriented.
pub proof fn lemma_rendered_thumbnail_oriented_then_scaled(
    b: Seq<u8>,
    orientation: i32,
    size: u32,
    bytes: Seq<u8>,
)
    requires
        rethumbnailed(b, orientation, size) == Some(bytes),
    ensures
        decoded(b) matches Some(m) && exists|q: PixelModel|
            q == oriented(orientation, m) && #[trigger] jpeg_of(thumbnailed(q, u32::MAX, size))
                == bytes,
{
    let m = decoded(b)->0;
    let q = oriented(orientation, m);
    assert(jpeg_of(thumbnailed(q, u32::MAX, size)) == bytes);
}

/// An embedded preview is the chosen preview thumbnail's picture turned by
/// EXIF `orientation`, at its own size: it is not scaled.
pub proof fn lemma_embedded_preview_oriented(
    file_path: Seq<char>,
    raw_width: u32,
    raw_height: u32,
    ts: Seq<Thumbnail>,
    orientation: i32,
    i: int,
    m: PixelModel,
)
    requires
        preview_uses_embedded(file_path, raw_width, raw_height, Some(ts)),
        preview_pick(ts) == Some(i),
        thumb_model(ts[i]) == Some(m),
    ensures
        embedded_preview_model(file_path, raw_width, raw_height, Some(ts), orientation) == Some(
            oriented(orientation, m),
        ),
{
}

/// First step of a thumbnail request with target edge `thumbnail_size`:
/// the chosen embedded thumbnail, turned by EXIF `orientation`, scaled to
/// fit in a `thumbnail_size` high box and encoded as JPEG, exactly when
/// `thumbnail_uses_embedded` holds; otherwise a rendered image is asked
/// for.
pub fn get_raw_thumbnail(
    file_path: &str,
    orientation: i32,
    thumbnail_size: u32,
    thumbs: &Option<Vec<Thumbnail>>,
) -> (step: RawStep)
    ensures
        step is Finished <==> thumbnail_uses_embedded(
            file_path@,
            thumbnail_size,
            thumbs_view(thumbs),
        ),
        step matches RawStep::Finished(r) ==> (embedded_thumbnail_model(
            file_path@,
            thumbnail_size,
            thumbs_view(thumbs),
            orientation,
        ) matches Some(m) && jpeg_answer(r, m)),
{
    let profile = resolve_raw_profile(file_path);
    if let Some(ts) = thumbs {
        if let Some(i) = select_thumbnail_index(
            ts.as_slice(),
            thumbnail_size,
            profile.prefer_jpeg_thumbnail,
        ) {
            if let Ok(image) = decode_thumb_image(&ts[i]) {
                let image = orient_image(image, orientation);
                let thumbnail = scale_thumbnail(&image, u32::MAX, thumbnail_size);
                return RawStep::Finished(
                    match encode_as_jpeg(&thumbnail) {
                        Ok(bytes) => Ok(Some(bytes)),
                        Err(e) => Err(e),
                    },
                );
            }
        }
    }
    RawStep::RenderProcessed
}

/// The ways the rendered thumbnail can fail once the rendered image
/// decodes.
pub open spec fn processed_thumbnail_failure(e: Seq<char>) -> bool {
    ||| starts_with(e, "Failed to encode image as JPEG: "@)
    ||| starts_with(e, "Failed to decode processed RAW thumbnail preview: "@)
}

/// Second step of a thumbnail request: a preview rendered from `processed`
/// at most `thumbnail_size` on each edge, decoded again, turned by EXIF
/// `orientation`, scaled to fit in a `thumbnail_size` high box and encoded
/// as JPEG. Its bytes are `rethumbnailed` from a preview that
/// `rendered_preview` allows; it fails when the rendered image cannot be
/// made into a preview, or else only when the preview just rendered
/// cannot be made into the thumbnail.
pub fn finish_raw_thumbnail(
    processed: &ProcessedRaster,
    orientation: i32,
    thumbnail_size: u32,
) -> (r: Result<Option<Vec<u8>>, String>)
    ensures
        r matches Ok(v) ==> v matches Some(bytes) && is_jpeg_stream(bytes@) && exists|b: Seq<u8>|
            #[trigger] rendered_preview(*processed, thumbnail_size, b) && rethumbnailed(
                b,
                orientation,
                thumbnail_size,
            ) == Some(bytes@),
        !render_ok(*processed, thumbnail_size) ==> r is Err,
        r is Err && render_ok(*processed, thumbnail_size) ==> exists|b: Seq<u8>|
            #[trigger] rendered_preview(*processed, thumbnail_size, b) && rethumbnailed(
                b,
                orientation,
                thumbnail_size,
            ) is None,
        match processed_model(*processed) {
            Some(_) => r matches Err(e) ==> processed_thumbnail_failure(e@),
            None => r matches Err(e) && processed_failure(*processed, e@),
        },
{
    let preview = match render_processed_preview(processed, thumbnail_size) {
        Ok(bytes) => bytes,
        Err(e) => return Err(e),
    };
    let image = match load_picture(preview.as_slice()) {
        Ok(pic) => pic,
        Err(e) => {
            assert(rendered_preview(*processed, thumbnail_size, preview@) && rethumbnailed(
                preview@,
                orientation,
                thumbnail_size,
            ) is None);
            return Err(
                image_error_message("Failed to decode processed RAW thumbnail preview: ", &e),
            )
        },
    };
    let image = orient_image(image, orientation);
    let thumbnail = scale_thumbnail(&image, u32::MAX, thumbnail_size);
    match encode_as_jpeg(&thumbnail) {
        Ok(bytes) => {
            assert(rendered_preview(*processed, thumbnail_size, preview@) && rethumbnailed(
                preview@,
                orientation,
                thumbnail_size,
            ) == Some(bytes@));
            Ok(Some(bytes))
        },
        Err(e) => {
            assert(rendered_preview(*processed, thumbnail_size, preview@) && rethumbnailed(
                preview@,
                orientation,
                thumbnail_size,
            ) is None);
            Err(e)
        },
    }
}

} // verus!
