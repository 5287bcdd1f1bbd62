//! Video frames and video metadata.
//!
//! Opening a video, reading its streams and decoding frames happen outside
//! this library; it receives the values read (durations, tag texts, the
//! RGB rows of a decoded frame) and decides and builds the rest.
use vstd::prelude::*;

use crate::imaging::{
    buffer_len, dims_of, half_source, image_error_message, is_jpeg_stream, jpeg_encoding,
    jpeg_size_ok, pixel_bytes, quarter_source, three_quarters_source, buffer_model,
    reads_back_at, rgb_picture, rotate_half, rotate_quarter, rotate_three_quarters,
    scale_thumbnail, thumbnailed, turned_half, turned_quarter, turned_three_quarters, write_jpeg,
    ColorKind, PixelModel, Picture,
};
use crate::orientation::{lemma_remap_pixel, pixel_at};
use crate::text::{chars_of, parse_i32, parse_i32_text, starts_with};

verus! {

/// Where to seek before grabbing a thumbnail frame: a tenth of the way in,
/// when seeking is asked for and the duration is known (positive).
pub fn seek_target(seek_to_ten_percent: bool, duration: i64) -> (target: Option<i64>)
    ensures
        target == (if seek_to_ten_percent && duration > 0 {
            Some((duration / 10) as i64)
        } else {
            None::<i64>
        }),
{
    if seek_to_ten_percent && duration > 0 {
        Some(duration / 10)
    } else {
        None
    }
}

/// What happens while a video is read for its thumbnail frame.
#[derive(Clone, Copy, Debug, PartialEq, Eq, Structural)]
pub enum FrameEvent {
    /// Seeking a tenth of the way in failed.
    SeekFailed,
    /// A packet of the stream with this index was read.
    Packet(usize),
    /// The decoder was given the last packet; `true` when it handed back a
    /// frame.
    Decoded(bool),
    /// No packet is left.
    PacketsExhausted,
}

/// What to do next while reading a video for its thumbnail frame.
#[derive(Clone, Copy, Debug, PartialEq, Eq, Structural)]
pub enum FrameAction {
    /// Start over from the beginning of the file, without seeking.
    RestartWithoutSeek,
    /// Ignore the packet: it belongs to another stream.
    SkipPacket,
    /// Hand the packet to the video decoder.
    DecodePacket,
    /// Make the thumbnail from the frame just decoded (see
    /// `video_frame_thumbnail`); the search ends.
    MakeThumbnail,
    /// Read the next packet.
    ReadNextPacket,
    /// The video gave no frame: there is no thumbnail.
    NoThumbnail,
}

/// The decision for `event` while looking for a frame of the stream with
/// index `video_stream`: a failed seek restarts from the beginning without
/// seeking; packets of other streams are skipped; the first frame the
/// decoder hands back is used; running out of packets means no thumbnail.
pub open spec fn frame_search_action(video_stream: usize, event: FrameEvent) -> FrameAction {
    match event {
        FrameEvent::SeekFailed => FrameAction::RestartWithoutSeek,
        FrameEvent::Packet(stream) => if stream == video_stream {
            FrameAction::DecodePacket
        } else {
            FrameAction::SkipPacket
        },
        FrameEvent::Decoded(got_frame) => if got_frame {
            FrameAction::MakeThumbnail
        } else {
            FrameAction::ReadNextPacket
        },
        FrameEvent::PacketsExhausted => FrameAction::NoThumbnail,
    }
}

/// One decision of the search for a video's thumbnail frame.
pub fn frame_search_step(video_stream: usize, event: FrameEvent) -> (action: FrameAction)
    ensures
        action == frame_search_action(video_stream, event),
{
    match event {
        FrameEvent::SeekFailed => FrameAction::RestartWithoutSeek,
        FrameEvent::Packet(stream) => {
            if stream == video_stream {
                FrameAction::DecodePacket
            } else {
                FrameAction::SkipPacket
            }
        },
        FrameEvent::Decoded(got_frame) => {
            if got_frame {
                FrameAction::MakeThumbnail
            } else {
                FrameAction::ReadNextPacket
            }
        },
        FrameEvent::PacketsExhausted => FrameAction::NoThumbnail,
    }
}

/// The rotation in degrees that a stream's `rotate` tag gives: the tag
/// read as an `i32`, or 0 when it is missing or is not a number.
pub open spec fn rotation_of(tag: Option<Seq<char>>) -> i32 {
    match tag {
        Some(t) => match parse_i32_text(t) {
            Some(v) => v,
            None => 0,
        },
        None => 0,
    }
}

/// Reads the rotation of a video stream from its `rotate` tag.
pub fn rotation_from_tag(tag: Option<&str>) -> (rotation: i32)
    ensures
        rotation == rotation_of(
            match tag {
                Some(t) => Some(t@),
                None => None,
            },
        ),
{
    match tag {
        Some(t) => {
            let cs = chars_of(t);
            match parse_i32(cs.as_slice()) {
                Some(v) => v,
                None => 0,
            }
        },
        None => 0,
    }
}

/// The number of bytes of one RGB row of `width` pixels.
pub open spec fn row_len(width: u32) -> int {
    3 * width
}

/// Every one of the `height` rows of an RGB frame of `width` pixels, laid
/// out `stride` bytes apart, lies within `len` bytes; rows may not
/// overlap (`stride` at least the row length).
pub open spec fn rows_fit(len: int, width: u32, height: u32, stride: int) -> bool {
    &&& stride >= row_len(width)
    &&& forall|y: int| 0 <= y < height ==> #[trigger] (y * stride) + row_len(width) <= len
}

/// `out` holds the `height` rows of `data`, `stride` bytes apart, packed
/// one after the other without padding.
pub open spec fn packed_rows(out: Seq<u8>, data: Seq<u8>, width: u32, height: u32, stride: int) -> bool {
    &&& out.len() == height * row_len(width)
    &&& forall|y: int, x: int|
        0 <= y < height && 0 <= x < row_len(width) ==> #[trigger] out[y * row_len(width) + x]
            == data[y * stride + x]
}

proof fn lemma_row_step(y: int, row: int)
    requires
        0 <= y,
        0 <= row,
    ensures
        y * row + row == (y + 1) * row,
{
    assert(y * row + row == (y + 1) * row) by (nonlinear_arith);
}

/// Packs the rows of a decoded RGB frame, `stride` bytes apart in
/// `frame_data`, into a buffer without padding. `None` when the stride is
/// shorter than a row or some row runs past the end of the data.
pub fn pack_rgb_rows(frame_data: &[u8], width: u32, height: u32, stride: usize) -> (r: Option<
    Vec<u8>,
>)
    ensures
        r is Some <==> rows_fit(frame_data@.len() as int, width, height, stride as int),
        r matches Some(out) ==> packed_rows(out@, frame_data@, width, height, stride as int),
{
    let len = frame_data.len();
    let row: u64 = width as u64 * 3;
    if (stride as u64) < row {
        return None;
    }
    let mut out: Vec<u8> = Vec::new();
    let mut y: u32 = 0;
    while y < height
        invariant
            len == frame_data@.len(),
            row == row_len(width),
            stride >= row,
            y <= height,
            forall|k: int| 0 <= k < y ==> #[trigger] (k * stride) + row_len(width) <= len,
            out@.len() == y * row_len(width),
            forall|k: int, x: int|
                0 <= k < y && 0 <= x < row_len(width) ==> #[trigger] out@[k * row_len(width) + x]
                    == frame_data@[k * stride + x],
        decreases height - y,
    {
        assert((y as u128) * (stride as u128) <= 0xffff_ffffu128 * 0xffff_ffff_ffff_ffffu128)
            by (nonlinear_arith)
            requires
                y <= 0xffff_ffffu32,
                stride as u128 <= 0xffff_ffff_ffff_ffffu128,
        ;
        let start: u128 = y as u128 * stride as u128;
        let end: u128 = start + row as u128;
        if end > len as u128 {
            proof {
                assert(!rows_fit(len as int, width, height, stride as int)) by {
                    assert((y as int * stride) + row_len(width) > len);
                }
            }
            return None;
        }
        let s: usize = start as usize;
        let ghost base = out@.len();
        let ghost prev = out@;
        let mut x: usize = 0;
        let rl: usize = row as usize;
        while x < rl
            invariant
                len == frame_data@.len(),
                rl == row,
                row == row_len(width),
                s == y * stride,
                s + rl <= len,
                x <= rl,
                base == y * row_len(width),
                out@.len() == base + x,
                prev.len() == base,
                forall|i: int| 0 <= i < base ==> #[trigger] out@[i] == prev[i],
                forall|x2: int| 0 <= x2 < x ==> #[trigger] out@[base + x2] == frame_data@[s + x2],
            decreases rl - x,
        {
            out.push(frame_data[s + x]);
            x = x + 1;
        }
        proof {
            lemma_row_step(y as int, row_len(width));
            assert forall|k: int, x2: int|
                0 <= k < y + 1 && 0 <= x2 < row_len(width) implies #[trigger] out@[k * row_len(
                width,
            ) + x2] == frame_data@[k * stride + x2] by {
                if k == y {
                    assert(out@[base + x2] == frame_data@[s + x2]);
                } else {
                    assert(k * row_len(width) + x2 < y * row_len(width)) by (nonlinear_arith)
                        requires
                            0 <= k < y,
                            0 <= x2 < row_len(width),
                    ;
                    assert(out@[k * row_len(width) + x2] == prev[k * row_len(width) + x2]);
                }
            }
        }
        y = y + 1;
    }
    Some(out)
}

/// The size of a `(width, height)` picture once turned by a stream
/// rotation: a quarter (90, -270) or three quarters (270, -90) swap the
/// edges; half turns and any other value keep them.
pub open spec fn rotated_dims(rotation: i32, dims: (u32, u32)) -> (u32, u32) {
    if rotation == 90 || rotation == -270 || rotation == 270 || rotation == -90 {
        (dims.1, dims.0)
    } else {
        dims
    }
}

/// The picture `m` turned by a stream rotation in degrees.
pub open spec fn stream_rotated(rotation: i32, m: PixelModel) -> PixelModel {
    if rotation == 90 || rotation == -270 {
        turned_quarter(m)
    } else if rotation == 180 || rotation == -180 {
        turned_half(m)
    } else if rotation == 270 || rotation == -90 {
        turned_three_quarters(m)
    } else {
        m
    }
}

/// Where a stream rotation puts each pixel. For a `w` x `h` picture,
/// 90 and -270 (a quarter turn clockwise) give an `h` x `w` picture whose
/// pixel `(x, y)` is `(y, h-1-x)` of the picture; 270 and -90 (a quarter
/// turn counter-clockwise) give an `h` x `w` picture whose pixel `(x, y)`
/// is `(w-1-y, x)`; 180 and -180 give a `w` x `h` picture whose pixel
/// `(x, y)` is `(w-1-x, h-1-y)`; any other value leaves every pixel in
/// place.
pub proof fn lemma_stream_rotation_moves_pixels(rotation: i32, m: PixelModel, x: int, y: int, c: int)
    requires
        0 <= c < pixel_bytes(m.color),
        0 <= x < (if rotation == 90 || rotation == -270 || rotation == 270 || rotation == -90 {
            m.height
        } else {
            m.width
        }),
        0 <= y < (if rotation == 90 || rotation == -270 || rotation == 270 || rotation == -90 {
            m.width
        } else {
            m.height
        }),
    ensures
        stream_rotated(rotation, m).color == m.color,
        dims_of(stream_rotated(rotation, m)) == (if rotation == 90 || rotation == -270 || rotation
            == 270 || rotation == -90 {
            (m.height, m.width)
        } else {
            (m.width, m.height)
        }),
        pixel_at(stream_rotated(rotation, m), x, y, c) == (if rotation == 90 || rotation == -270 {
            pixel_at(m, y, m.height - 1 - x, c)
        } else if rotation == 270 || rotation == -90 {
            pixel_at(m, m.width - 1 - y, x, c)
        } else if rotation == 180 || rotation == -180 {
            pixel_at(m, m.width - 1 - x, m.height - 1 - y, c)
        } else {
            pixel_at(m, x, y, c)
        }),
{
    let w = m.width;
    let h = m.height;
    if rotation == 90 || rotation == -270 {
        lemma_remap_pixel(m, h, w, quarter_source(h), x, y, c);
    } else if rotation == 270 || rotation == -90 {
        lemma_remap_pixel(m, h, w, three_quarters_source(w), x, y, c);
    } else if rotation == 180 || rotation == -180 {
        lemma_remap_pixel(m, w, h, half_source(w, h), x, y, c);
    }
}

/// Of the packets of a video, exactly those of the video stream go to the
/// decoder; every other stream's packets are skipped.
pub proof fn lemma_only_video_packets_decoded(video_stream: usize, stream: usize)
    ensures
        frame_search_action(video_stream, FrameEvent::Packet(stream)) == FrameAction::DecodePacket
            <==> stream == video_stream,
        stream != video_stream ==> frame_search_action(video_stream, FrameEvent::Packet(stream))
            == FrameAction::SkipPacket,
{
}

/// The search ends at the first frame the decoder hands back, goes on to
/// the next packet while it hands back none, starts over without seeking
/// when seeking fails, and ends without a thumbnail when packets run out;
/// whatever the video stream is.
pub proof fn lemma_frame_search_outcomes(video_stream: usize, got_frame: bool)
    ensures
        frame_search_action(video_stream, FrameEvent::Decoded(got_frame)) == (if got_frame {
            FrameAction::MakeThumbnail
        } else {
            FrameAction::ReadNextPacket
        }),
        frame_search_action(video_stream, FrameEvent::SeekFailed) == FrameAction::RestartWithoutSeek,
        frame_search_action(video_stream, FrameEvent::PacketsExhausted) == FrameAction::NoThumbnail,
{
}

/// Turns a picture by a stream rotation in degrees: 90 and -270 a quarter
/// turn clockwise, 180 and -180 a half turn, 270 and -90 three quarters;
/// other values leave it as it is.
pub fn rotate_for_stream(p: Picture, rotation: i32) -> (r: Picture)
    ensures
        r@ == stream_rotated(rotation, p@),
        r.dims() == rotated_dims(rotation, p.dims()),
        !(rotation == 90 || rotation == -270 || rotation == 180 || rotation == -180 || rotation
            == 270 || rotation == -90) ==> r == p,
{
    match rotation {
        90 => rotate_quarter(&p),
        180 => rotate_half(&p),
        270 => rotate_three_quarters(&p),
        -90 => rotate_three_quarters(&p),
        -180 => rotate_half(&p),
        -270 => rotate_quarter(&p),
        _ => p,
    }
}

/// The packed rows of an RGB frame as one sequence: byte `i` is byte
/// `i % row` of row `i / row`.
pub open spec fn packed_seq(data: Seq<u8>, width: u32, height: u32, stride: int) -> Seq<u8> {
    Seq::new(
        (height * row_len(width)) as nat,
        |i: int| data[(i / row_len(width)) * stride + i % row_len(width)],
    )
}

/// `packed_rows` describes exactly one sequence, `packed_seq`.
proof fn lemma_packed_rows_is_seq(out: Seq<u8>, data: Seq<u8>, width: u32, height: u32, stride: int)
    requires
        packed_rows(out, data, width, height, stride),
    ensures
        out == packed_seq(data, width, height, stride),
{
    let row = row_len(width);
    if width == 0 {
        assert(height * row == 0) by (nonlinear_arith)
            requires
                row == 0,
        ;
        assert(out =~= packed_seq(data, width, height, stride));
    } else {
        assert forall|i: int| 0 <= i < out.len() implies #[trigger] out[i] == packed_seq(
            data,
            width,
            height,
            stride,
        )[i] by {
            let y = i / row;
            let x = i % row;
            assert(i == y * row + x && 0 <= x < row && 0 <= y < height) by (nonlinear_arith)
                requires
                    row > 0,
                    0 <= i < height * row,
                    y == i / row,
                    x == i % row,
            ;
            assert(out[y * row + x] == data[y * stride + x]);
        }
        assert(out =~= packed_seq(data, width, height, stride));
    }
}

/// The thumbnail picture of a decoded RGB frame: its packed rows, scaled to
/// fit in a `thumbnail_size` high box, then turned by the stream
/// `rotation`.
pub open spec fn frame_thumbnail_model(
    data: Seq<u8>,
    width: u32,
    height: u32,
    stride: int,
    thumbnail_size: u32,
    rotation: i32,
) -> PixelModel {
    stream_rotated(
        rotation,
        thumbnailed(
            buffer_model(width, height, ColorKind::Rgb8, packed_seq(data, width, height, stride)),
            u32::MAX,
            thumbnail_size,
        ),
    )
}

/// Builds the JPEG thumbnail of a decoded video frame: its RGB rows are
/// packed, scaled to fit in a `thumbnail_size` high box, turned by the
/// stream `rotation` and encoded. `Ok(None)` when the rows do not fit the
/// frame data (see `rows_fit`); otherwise it succeeds exactly when the
/// thumbnail's size fits a JPEG, with the encoding of
/// `frame_thumbnail_model`.
pub fn video_frame_thumbnail(
    frame_data: &[u8],
    width: u32,
    height: u32,
    stride: usize,
    thumbnail_size: u32,
    rotation: i32,
) -> (r: Result<Option<Vec<u8>>, String>)
    ensures
        !rows_fit(frame_data@.len() as int, width, height, stride as int) ==> r == Ok::<
            Option<Vec<u8>>,
            String,
        >(None),
        rows_fit(frame_data@.len() as int, width, height, stride as int) ==> (r is Ok
            <==> jpeg_size_ok(
            dims_of(
                frame_thumbnail_model(
                    frame_data@,
                    width,
                    height,
                    stride as int,
                    thumbnail_size,
                    rotation,
                ),
            ),
        )),
        rows_fit(frame_data@.len() as int, width, height, stride as int) ==> (r matches Ok(b)
            ==> (b matches Some(bytes) && bytes@ == jpeg_encoding(
            frame_thumbnail_model(frame_data@, width, height, stride as int, thumbnail_size, rotation),
        ) && is_jpeg_stream(bytes@))),
        r matches Ok(Some(bytes)) ==> reads_back_at(
            bytes@,
            dims_of(
                frame_thumbnail_model(frame_data@, width, height, stride as int, thumbnail_size, rotation),
            ),
        ),
        r matches Err(e) ==> starts_with(e@, "Image encode error: "@),
{
    let buf = match pack_rgb_rows(frame_data, width, height, stride) {
        Some(b) => b,
        None => return Ok(None),
    };
    proof {
        lemma_packed_rows_is_seq(buf@, frame_data@, width, height, stride as int);
    }
    assert(buffer_len(width, height, 3) == height * row_len(width)) by (nonlinear_arith);
    let picture = match rgb_picture(width, height, buf) {
        Some(p) => p,
        None => {
            proof {
                assert(false);
            }
            return Err(String::from_str("Failed to create image buffer"));
        },
    };
    let thumbnail = scale_thumbnail(&picture, u32::MAX, thumbnail_size);
    let adjusted = rotate_for_stream(thumbnail, rotation);
    match write_jpeg(&adjusted) {
        Ok(bytes) => Ok(Some(bytes)),
        Err(e) => Err(image_error_message("Image encode error: ", &e)),
    }
}

/// A frame whose rows follow each other without padding packs to its
/// leading `height` rows of bytes, unchanged.
pub proof fn lemma_packed_contiguous(out: Seq<u8>, data: Seq<u8>, width: u32, height: u32)
    requires
        width > 0,
        packed_rows(out, data, width, height, row_len(width)),
        rows_fit(data.len() as int, width, height, row_len(width)),
    ensures
        out == data.take(height * row_len(width)),
{
    let row = row_len(width);
    if height > 0 {
        let last = height - 1;
        assert(((last as int) * row) + row <= data.len());
        assert((last as int) * row + row == height * row) by (nonlinear_arith)
            requires
                last == height - 1,
        ;
    } else {
        assert(height * row == 0) by (nonlinear_arith)
            requires
                height == 0,
        ;
    }
    assert(height * row <= data.len());
    assert forall|k: int| 0 <= k < out.len() implies #[trigger] out[k] == data.take(height * row)[k] by {
        let y = k / row;
        let x = k % row;
        assert(k == y * row + x && 0 <= x < row && 0 <= y < height) by (nonlinear_arith)
            requires
                row > 0,
                0 <= k < height * row,
                y == k / row,
                x == k % row,
        ;
        assert(out[y * row + x] == data[y * row + x]);
    }
    assert(out =~= data.take(height * row));
}

} // verus!
