//! Decoded images, the few operations that the library applies to them
//! (flips, quarter turns, scaling, JPEG coding), and EXIF orientation.
//!
//! The pixels live in an `image::DynamicImage`, which the verifier sees as
//! an opaque value; a picture's view (`PixelModel`) is its size, color
//! layout and pixel bytes, which the wrappers of the image crate's
//! operations state or name.
use vstd::prelude::*;

use image::{DynamicImage, ImageError};

use crate::text::starts_with;

verus! {

#[verifier::external_type_specification]
#[verifier::external_body]
pub struct ExDynamicImage(image::DynamicImage);

#[verifier::external_type_specification]
#[verifier::external_body]
pub struct ExImageError(image::ImageError);

/// The color layout of a picture's pixels, one variant per layout that an
/// `image::DynamicImage` can hold.
#[derive(Clone, Copy, Debug, PartialEq, Eq, Structural)]
pub enum ColorKind {
    L8,
    La8,
    Rgb8,
    Rgba8,
    L16,
    La16,
    Rgb16,
    Rgba16,
    Rgb32F,
    Rgba32F,
}

/// Bytes per pixel of a color layout.
pub open spec fn pixel_bytes(c: ColorKind) -> int {
    match c {
        ColorKind::L8 => 1,
        ColorKind::La8 => 2,
        ColorKind::Rgb8 => 3,
        ColorKind::Rgba8 => 4,
        ColorKind::L16 => 2,
        ColorKind::La16 => 4,
        ColorKind::Rgb16 => 6,
        ColorKind::Rgba16 => 8,
        ColorKind::Rgb32F => 12,
        ColorKind::Rgba32F => 16,
    }
}

/// What a picture holds: its size, its color layout and its pixel bytes,
/// row by row from the top, each row from the left, each pixel's samples
/// in channel order (samples wider than a byte in little-endian order).
pub struct PixelModel {
    pub width: u32,
    pub height: u32,
    pub color: ColorKind,
    pub data: Seq<u8>,
}

/// A decoded image.
pub struct Picture {
    image: DynamicImage,
    width: u32,
    height: u32,
    pixels: Ghost<(ColorKind, Seq<u8>)>,
}

impl View for Picture {
    type V = PixelModel;

    closed spec fn view(&self) -> PixelModel {
        PixelModel {
            width: self.width,
            height: self.height,
            color: self.pixels@.0,
            data: self.pixels@.1,
        }
    }
}

impl Picture {
    /// Width and height of the picture.
    pub open spec fn dims(&self) -> (u32, u32) {
        (self@.width, self@.height)
    }

    /// Width of the picture in pixels.
    pub fn width(&self) -> (w: u32)
        ensures
            w == self.dims().0,
    {
        self.width
    }

    /// Height of the picture in pixels.
    pub fn height(&self) -> (h: u32)
        ensures
            h == self.dims().1,
    {
        self.height
    }
}

/// Width and height of a pixel model.
pub open spec fn dims_of(m: PixelModel) -> (u32, u32) {
    (m.width, m.height)
}

/// What `image::load_from_memory` makes of `data`: the decoded picture, or
/// `None` when it reports an error.
pub uninterp spec fn decoded(data: Seq<u8>) -> Option<PixelModel>;

/// The size of what `data` decodes to, if it decodes.
pub open spec fn decoded_size(data: Seq<u8>) -> Option<(u32, u32)> {
    match decoded(data) {
        Some(m) => Some(dims_of(m)),
        None => None,
    }
}

/// `image::load_from_memory`: guesses the format from the bytes and
/// decodes them. Succeeds exactly when `decoded` is `Some`, with that
/// picture; the decoder fills a buffer of exactly the picture's size.
#[verifier::external_body]
pub(crate) fn load_picture(data: &[u8]) -> (r: Result<Picture, ImageError>)
    ensures
        match decoded(data@) {
            Some(m) => r matches Ok(p) && p@ == m && well_formed(m),
            None => r is Err,
        },
{
    match image::load_from_memory(data) {
        Ok(img) => Ok(Picture { width: img.width(), height: img.height(), image: img, pixels: Ghost(arbitrary()) }),
        Err(e) => Err(e),
    }
}

/// The number of bytes that an 8-bit image of `channels` channels needs.
pub open spec fn buffer_len(width: u32, height: u32, channels: int) -> int {
    channels * width * height
}

/// A picture whose buffer holds exactly its pixels: `width * height`
/// pixels of its layout and nothing after them.
pub open spec fn well_formed(m: PixelModel) -> bool {
    m.data.len() == buffer_len(m.width, m.height, pixel_bytes(m.color))
}

/// The picture that `from_raw` builds over the whole buffer `data`, bytes
/// past the pixels included.
pub open spec fn buffer_model(width: u32, height: u32, color: ColorKind, data: Seq<u8>) -> PixelModel {
    PixelModel { width, height, color, data }
}

/// The picture of the leading `width * height` pixels of the given 8-bit
/// layout in `data`, as they are.
pub open spec fn raw_model(width: u32, height: u32, color: ColorKind, data: Seq<u8>) -> PixelModel {
    PixelModel {
        width,
        height,
        color,
        data: data.take(buffer_len(width, height, pixel_bytes(color))),
    }
}

/// `image::ImageBuffer::<Luma<u8>, Vec<u8>>::from_raw`, wrapped as a
/// grayscale picture: `None` exactly when `data` holds fewer than
/// `width * height` bytes; otherwise the whole buffer is kept as it is.
#[verifier::external_body]
pub(crate) fn gray_picture(width: u32, height: u32, data: Vec<u8>) -> (r: Option<Picture>)
    ensures
        r is Some <==> buffer_len(width, height, 1) <= data@.len(),
        r matches Some(p) ==> p@ == buffer_model(width, height, ColorKind::L8, data@),
{
    match image::ImageBuffer::<image::Luma<u8>, Vec<u8>>::from_raw(width, height, data) {
        Some(buf) => Some(Picture { image: DynamicImage::ImageLuma8(buf), width, height, pixels: Ghost(arbitrary()) }),
        None => None,
    }
}

/// `image::ImageBuffer::<Rgb<u8>, Vec<u8>>::from_raw`, wrapped as an RGB
/// picture: `None` exactly when `data` holds fewer than
/// `3 * width * height` bytes; otherwise the whole buffer is kept as it is.
#[verifier::external_body]
pub(crate) fn rgb_picture(width: u32, height: u32, data: Vec<u8>) -> (r: Option<Picture>)
    ensures
        r is Some <==> buffer_len(width, height, 3) <= data@.len(),
        r matches Some(p) ==> p@ == buffer_model(width, height, ColorKind::Rgb8, data@),
{
    match image::ImageBuffer::<image::Rgb<u8>, Vec<u8>>::from_raw(width, height, data) {
        Some(buf) => Some(Picture { image: DynamicImage::ImageRgb8(buf), width, height, pixels: Ghost(arbitrary()) }),
        None => None,
    }
}

/// `image::ImageBuffer::<Rgba<u8>, Vec<u8>>::from_raw`, wrapped as an RGBA
/// picture: `None` exactly when `data` holds fewer than
/// `4 * width * height` bytes; otherwise the whole buffer is kept as it is.
#[verifier::external_body]
pub(crate) fn rgba_picture(width: u32, height: u32, data: Vec<u8>) -> (r: Option<Picture>)
    ensures
        r is Some <==> buffer_len(width, height, 4) <= data@.len(),
        r matches Some(p) ==> p@ == buffer_model(width, height, ColorKind::Rgba8, data@),
{
    match image::ImageBuffer::<image::Rgba<u8>, Vec<u8>>::from_raw(width, height, data) {
        Some(buf) => Some(Picture { image: DynamicImage::ImageRgba8(buf), width, height, pixels: Ghost(arbitrary()) }),
        None => None,
    }
}

/// A picture of `new_width` x `new_height` whose pixel `(x, y)` is pixel
/// `source(x, y)` of `m`.
pub open spec fn remap(
    m: PixelModel,
    new_width: u32,
    new_height: u32,
    source: spec_fn(int, int) -> (int, int),
) -> PixelModel {
    let b = pixel_bytes(m.color);
    PixelModel {
        width: new_width,
        height: new_height,
        color: m.color,
        data: Seq::new(
            buffer_len(new_width, new_height, b) as nat,
            |i: int|
                {
                    let p = i / b;
                    let (sx, sy) = source(p % (new_width as int), p / (new_width as int));
                    m.data[(sy * m.width + sx) * b + i % b]
                },
        ),
    }
}

/// The source pixel of pixel `(x, y)` when mirroring left to right a
/// picture `width` wide.
pub open spec fn mirror_source(width: u32) -> spec_fn(int, int) -> (int, int) {
    |x: int, y: int| (width - 1 - x, y)
}

/// The source pixel of pixel `(x, y)` when mirroring top to bottom a
/// picture `height` high.
pub open spec fn flip_source(height: u32) -> spec_fn(int, int) -> (int, int) {
    |x: int, y: int| (x, height - 1 - y)
}

/// The source pixel of pixel `(x, y)` when turning a quarter clockwise a
/// picture `height` high.
pub open spec fn quarter_source(height: u32) -> spec_fn(int, int) -> (int, int) {
    |x: int, y: int| (y, height - 1 - x)
}

/// The source pixel of pixel `(x, y)` when turning half way a `width` x
/// `height` picture.
pub open spec fn half_source(width: u32, height: u32) -> spec_fn(int, int) -> (int, int) {
    |x: int, y: int| (width - 1 - x, height - 1 - y)
}

/// The source pixel of pixel `(x, y)` when turning three quarters
/// clockwise a picture `width` wide.
pub open spec fn three_quarters_source(width: u32) -> spec_fn(int, int) -> (int, int) {
    |x: int, y: int| (width - 1 - y, x)
}

/// `m` mirrored left to right.
pub open spec fn mirrored(m: PixelModel) -> PixelModel {
    remap(m, m.width, m.height, mirror_source(m.width))
}

/// `m` mirrored top to bottom.
pub open spec fn flipped(m: PixelModel) -> PixelModel {
    remap(m, m.width, m.height, flip_source(m.height))
}

/// `m` turned a quarter clockwise: pixel `(x, y)` goes to
/// `(height - 1 - y, x)`.
pub open spec fn turned_quarter(m: PixelModel) -> PixelModel {
    remap(m, m.height, m.width, quarter_source(m.height))
}

/// `m` turned half way: pixel `(x, y)` goes to
/// `(width - 1 - x, height - 1 - y)`.
pub open spec fn turned_half(m: PixelModel) -> PixelModel {
    remap(m, m.width, m.height, half_source(m.width, m.height))
}

/// `m` turned three quarters clockwise: pixel `(x, y)` goes to
/// `(y, width - 1 - x)`.
pub open spec fn turned_three_quarters(m: PixelModel) -> PixelModel {
    remap(m, m.height, m.width, three_quarters_source(m.width))
}

/// `DynamicImage::fliph`: mirrors left to right (imageops puts pixel
/// `(x, y)` at `(width - 1 - x, y)`).
#[verifier::external_body]
pub(crate) fn flip_horizontal(p: &Picture) -> (r: Picture)
    ensures
        r@ == mirrored(p@),
{
    let img = p.image.fliph();
    Picture { width: img.width(), height: img.height(), image: img, pixels: Ghost(arbitrary()) }
}

/// `DynamicImage::flipv`: mirrors top to bottom (imageops puts pixel
/// `(x, y)` at `(x, height - 1 - y)`).
#[verifier::external_body]
pub(crate) fn flip_vertical(p: &Picture) -> (r: Picture)
    ensures
        r@ == flipped(p@),
{
    let img = p.image.flipv();
    Picture { width: img.width(), height: img.height(), image: img, pixels: Ghost(arbitrary()) }
}

/// `DynamicImage::rotate90`: a quarter turn clockwise (imageops puts pixel
/// `(x, y)` at `(height - 1 - y, x)` of a `height` x `width` picture).
#[verifier::external_body]
pub(crate) fn rotate_quarter(p: &Picture) -> (r: Picture)
    ensures
        r@ == turned_quarter(p@),
{
    let img = p.image.rotate90();
    Picture { width: img.width(), height: img.height(), image: img, pixels: Ghost(arbitrary()) }
}

/// `DynamicImage::rotate180`: a half turn (imageops puts pixel `(x, y)` at
/// `(width - 1 - x, height - 1 - y)`).
#[verifier::external_body]
pub(crate) fn rotate_half(p: &Picture) -> (r: Picture)
    ensures
        r@ == turned_half(p@),
{
    let img = p.image.rotate180();
    Picture { width: img.width(), height: img.height(), image: img, pixels: Ghost(arbitrary()) }
}

/// `DynamicImage::rotate270`: three quarter turns clockwise (imageops puts
/// pixel `(x, y)` at `(y, width - 1 - x)` of a `height` x `width`
/// picture).
#[verifier::external_body]
pub(crate) fn rotate_three_quarters(p: &Picture) -> (r: Picture)
    ensures
        r@ == turned_three_quarters(p@),
{
    let img = p.image.rotate270();
    Picture { width: img.width(), height: img.height(), image: img, pixels: Ghost(arbitrary()) }
}

/// The size that the image crate's `resize_dimensions` picks for a
/// `width` x `height` picture asked to fit in `max_width` x `max_height`
/// keeping its aspect ratio (computed with `f64` division, multiplication
/// and rounding).
pub uninterp spec fn resize_size(width: u32, height: u32, max_width: u32, max_height: u32) -> (
    u32,
    u32,
);

/// The size of `m` once resized to fit in `max_width` x `max_height`: kept
/// when it is already that size.
pub open spec fn resize_dims(m: PixelModel, max_width: u32, max_height: u32) -> (u32, u32) {
    if (max_width, max_height) == dims_of(m) {
        dims_of(m)
    } else {
        resize_size(m.width, m.height, max_width, max_height)
    }
}

/// What holds of every picture `q` that resizing `m` to fit in
/// `max_width` x `max_height` can give: `m` itself when it already has
/// that size, else a picture of the size `resize_size` picks, in the same
/// layout, whose buffer holds exactly its pixels.
pub open spec fn resize_outcome(m: PixelModel, max_width: u32, max_height: u32, q: PixelModel) -> bool {
    if (max_width, max_height) == dims_of(m) {
        q == m
    } else {
        &&& dims_of(q) == resize_size(m.width, m.height, max_width, max_height)
        &&& q.color == m.color
        &&& well_formed(q)
    }
}

/// `DynamicImage::resize` with the Lanczos3 filter: a clone when the
/// picture already has the asked size; otherwise the size comes from
/// `resize_dimensions` and the pixels are filtered into a new buffer of
/// the same layout. The filter's kernel calls the platform's `sin`, so the
/// pixel values are not stated.
#[verifier::external_body]
pub(crate) fn resize_lanczos(p: &Picture, max_width: u32, max_height: u32) -> (r: Picture)
    ensures
        (max_width, max_height) == p.dims() ==> r@ == p@,
        (max_width, max_height) != p.dims() ==> dims_of(r@) == resize_size(
            p@.width,
            p@.height,
            max_width,
            max_height,
        ) && r@.color == p@.color && well_formed(r@),
{
    let img = p.image.resize(max_width, max_height, image::imageops::FilterType::Lanczos3);
    Picture { width: img.width(), height: img.height(), image: img, pixels: Ghost(arbitrary()) }
}

/// What `DynamicImage::thumbnail` makes of `m` asked to fit in
/// `max_width` x `max_height` (size computed in floating point by the
/// image crate).
pub uninterp spec fn thumbnailed(m: PixelModel, max_width: u32, max_height: u32) -> PixelModel;

/// `DynamicImage::thumbnail`: fast scaling to fit in `max_width` x
/// `max_height` keeping the aspect ratio, into a new buffer of exactly the
/// new size; the result is only named (`thumbnailed`).
#[verifier::external_body]
pub(crate) fn scale_thumbnail(p: &Picture, max_width: u32, max_height: u32) -> (r: Picture)
    ensures
        r@ == thumbnailed(p@, max_width, max_height),
        well_formed(r@),
{
    let img = p.image.thumbnail(max_width, max_height);
    Picture { width: img.width(), height: img.height(), image: img, pixels: Ghost(arbitrary()) }
}

/// What `DynamicImage::to_rgb8` makes of `m`: the same size in 8-bit RGB.
pub uninterp spec fn rgb_converted(m: PixelModel) -> PixelModel;

/// `DynamicImage::to_rgb8`: converts to 8-bit RGB; the size is kept. An
/// RGB picture is cloned with its buffer; any other is converted into a
/// new buffer of exactly its pixels.
#[verifier::external_body]
pub(crate) fn to_rgb(p: &Picture) -> (r: Picture)
    ensures
        r@ == rgb_converted(p@),
        r.dims() == p.dims(),
        r@.color == ColorKind::Rgb8,
        well_formed(p@) ==> well_formed(r@),
{
    Picture { image: DynamicImage::ImageRgb8(p.image.to_rgb8()), width: p.width, height: p.height, pixels: Ghost(arbitrary()) }
}

/// Bytes framed as a JPEG stream: they begin with the start-of-image
/// marker `FF D8` and end with the end-of-image marker `FF D9`.
pub open spec fn is_jpeg_stream(b: Seq<u8>) -> bool {
    &&& b.len() >= 4
    &&& b[0] == 0xFF && b[1] == 0xD8
    &&& b[b.len() - 2] == 0xFF && b[b.len() - 1] == 0xD9
}

/// A size that the JPEG format can hold: both edges in `1..=65535`.
pub open spec fn jpeg_size_ok(dims: (u32, u32)) -> bool {
    1 <= dims.0 <= 65535 && 1 <= dims.1 <= 65535
}

/// The bytes that `DynamicImage::write_to` with `ImageFormat::Jpeg` writes
/// for the picture `m` (quality 75; layouts other than gray and RGB are
/// converted to one of them first).
pub uninterp spec fn jpeg_encoding(m: PixelModel) -> Seq<u8>;

/// JPEG bytes that, if the image decoder accepts them, decode to a picture
/// of size `dims`.
pub open spec fn reads_back_at(bytes: Seq<u8>, dims: (u32, u32)) -> bool {
    decoded(bytes) matches Some(q) ==> dims_of(q) == dims
}

/// `DynamicImage::write_to` with `ImageFormat::Jpeg`, into an empty byte
/// buffer. As the image crate's JPEG encoder is written, it refuses a size
/// with an edge outside `1..=65535` and otherwise writes, into a buffer
/// that cannot fail, a stream from the start-of-image marker to the
/// end-of-image marker whose frame header holds the picture's width and
/// height; the image crate's JPEG decoder takes a picture's size from that
/// header. The encoded bytes are only named (`jpeg_encoding`); whether the
/// decoder accepts them is not stated. The encoder panics when the buffer
/// holds more or fewer bytes than the pixels, hence `well_formed`.
#[verifier::external_body]
pub(crate) fn write_jpeg(p: &Picture) -> (r: Result<Vec<u8>, ImageError>)
    requires
        well_formed(p@),
    ensures
        r is Ok <==> jpeg_size_ok(p.dims()),
        r matches Ok(bytes) ==> bytes@ == jpeg_encoding(p@) && is_jpeg_stream(bytes@),
        r matches Ok(bytes) ==> reads_back_at(bytes@, p.dims()),
{
    let mut buf: Vec<u8> = Vec::new();
    match p.image.write_to(&mut std::io::Cursor::new(&mut buf), image::ImageFormat::Jpeg) {
        Ok(()) => Ok(buf),
        Err(e) => Err(e),
    }
}

/// The `Display` text of an `image::ImageError`; its wording is not stated.
#[verifier::external_body]
pub(crate) fn image_error_text(e: &ImageError) -> (s: String) {
    format!("{}", e)
}

/// `prefix` followed by `detail`.
pub fn message(prefix: &str, detail: &str) -> (s: String)
    ensures
        s@ == prefix@ + detail@,
{
    String::from_str(prefix).concat(detail)
}

/// `prefix` followed by the text of an image error.
pub fn image_error_message(prefix: &str, e: &ImageError) -> (s: String)
    ensures
        starts_with(s@, prefix@),
{
    let t = image_error_text(e);
    let s = message(prefix, t.as_str());
    assert(s@.take(prefix@.len() as int) =~= prefix@);
    s
}

/// The JPEG bytes of `m` once converted to 8-bit RGB.
pub open spec fn jpeg_of(m: PixelModel) -> Seq<u8> {
    jpeg_encoding(rgb_converted(m))
}

/// Encodes a picture as JPEG after converting it to 8-bit RGB. It succeeds
/// exactly when both edges are in `1..=65535`, with the JPEG stream
/// `jpeg_of` the picture; otherwise the encoder's error is reported as
/// `Failed to encode image as JPEG: ` and its text. The picture's buffer
/// must hold exactly its pixels (the encoder panics otherwise), as every
/// picture this library makes does.
pub fn encode_as_jpeg(p: &Picture) -> (r: Result<Vec<u8>, String>)
    requires
        well_formed(p@),
    ensures
        r is Ok <==> jpeg_size_ok(p.dims()),
        r matches Ok(bytes) ==> bytes@ == jpeg_of(p@) && is_jpeg_stream(bytes@),
        r matches Ok(bytes) ==> reads_back_at(bytes@, p.dims()),
        r matches Err(e) ==> starts_with(e@, "Failed to encode image as JPEG: "@),
{
    let rgb = to_rgb(p);
    match write_jpeg(&rgb) {
        Ok(bytes) => Ok(bytes),
        Err(e) => Err(image_error_message("Failed to encode image as JPEG: ", &e)),
    }
}

// ---------------------------------------------------------------------------
// EXIF orientation
// ---------------------------------------------------------------------------

/// The size of a `(width, height)` picture once EXIF orientation
/// `orientation` is applied: orientations 5 to 8 involve a quarter turn
/// and swap the edges, all others keep them.
pub open spec fn oriented_dims(orientation: i32, dims: (u32, u32)) -> (u32, u32) {
    if 5 <= orientation <= 8 {
        (dims.1, dims.0)
    } else {
        dims
    }
}

/// The picture `m` once EXIF orientation `orientation` is applied.
pub open spec fn oriented(orientation: i32, m: PixelModel) -> PixelModel {
    if orientation == 2 {
        mirrored(m)
    } else if orientation == 3 {
        turned_half(m)
    } else if orientation == 4 {
        flipped(m)
    } else if orientation == 5 {
        mirrored(turned_quarter(m))
    } else if orientation == 6 {
        turned_quarter(m)
    } else if orientation == 7 {
        mirrored(turned_three_quarters(m))
    } else if orientation == 8 {
        turned_three_quarters(m)
    } else {
        m
    }
}

/// Orienting a picture gives it the size that `oriented_dims` says: the
/// edges swap exactly for the orientations that involve a quarter turn.
pub proof fn lemma_oriented_dims(orientation: i32, m: PixelModel)
    ensures
        dims_of(oriented(orientation, m)) == oriented_dims(orientation, dims_of(m)),
{
}

/// Applies EXIF orientation `orientation` to a picture: 2 mirrors, 3 turns
/// half way, 4 flips, 5 turns a quarter and mirrors, 6 turns a quarter, 7
/// turns three quarters and mirrors, 8 turns three quarters; any other
/// value leaves the picture as it is.
pub fn orient_image(img: Picture, orientation: i32) -> (r: Picture)
    ensures
        r@ == oriented(orientation, img@),
        r.dims() == oriented_dims(orientation, img.dims()),
        well_formed(img@) ==> well_formed(r@),
        !(2 <= orientation <= 8) ==> r == img,
{
    match orientation {
        2 => flip_horizontal(&img),
        3 => rotate_half(&img),
        4 => flip_vertical(&img),
        5 => flip_horizontal(&rotate_quarter(&img)),
        6 => rotate_quarter(&img),
        7 => flip_horizontal(&rotate_three_quarters(&img)),
        8 => rotate_three_quarters(&img),
        _ => img,
    }
}

} // verus!
