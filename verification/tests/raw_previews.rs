use lap_media::decode::{decode_thumb_image, high_bytes};
use lap_media::imaging::{encode_as_jpeg, orient_image, Picture};
use lap_media::raw::{
    finish_raw_preview, finish_raw_thumbnail, get_raw_dimensions, get_raw_preview_image,
    get_raw_thumbnail, render_processed_preview, ProcessedKind, ProcessedRaster, RawStep,
};
use lap_media::thumbs::{
    is_preview_thumb_large_enough, select_preview_thumb, select_thumbnail_thumb,
    thumbnail_max_edge, ThumbKind, Thumbnail,
};

fn thumb(format: ThumbKind, width: u32, height: u32) -> Thumbnail {
    Thumbnail { format, width, height, colors: 3, data: Vec::new() }
}

fn rgb_thumb(width: u32, height: u32) -> Thumbnail {
    Thumbnail {
        format: ThumbKind::Bitmap,
        width,
        height,
        colors: 3,
        data: vec![128u8; (width * height * 3) as usize],
    }
}

fn picture(width: u32, height: u32, data: Vec<u8>) -> Picture {
    let t = Thumbnail { format: ThumbKind::Bitmap, width, height, colors: 3, data };
    decode_thumb_image(&t).unwrap()
}

fn jpeg_bytes(width: u32, height: u32) -> Vec<u8> {
    let pic = picture(width, height, vec![200u8; (width * height * 3) as usize]);
    encode_as_jpeg(&pic).unwrap()
}

fn jpeg_dims(bytes: &[u8]) -> (u32, u32) {
    let img = image::load_from_memory(bytes).unwrap();
    (img.width(), img.height())
}

fn jpeg_thumb(width: u32, height: u32) -> Thumbnail {
    Thumbnail { format: ThumbKind::Jpeg, width, height, colors: 3, data: jpeg_bytes(width, height) }
}

fn is_jpeg(bytes: &[u8]) -> bool {
    bytes.len() > 2 && bytes[0] == 0xFF && bytes[1] == 0xD8
}

#[test]
fn max_edge_of_thumbnail() {
    assert_eq!(thumbnail_max_edge(&thumb(ThumbKind::Jpeg, 160, 120)), 160);
    assert_eq!(thumbnail_max_edge(&thumb(ThumbKind::Jpeg, 120, 1616)), 1616);
}

#[test]
fn large_enough_rules() {
    let t = thumb(ThumbKind::Jpeg, 2048, 10);
    assert!(is_preview_thumb_large_enough(&t, 100_000, 100_000));
    let half = thumb(ThumbKind::Jpeg, 3000, 2000);
    assert!(is_preview_thumb_large_enough(&half, 6000, 4000));
    let small = thumb(ThumbKind::Jpeg, 1600, 1066);
    assert!(!is_preview_thumb_large_enough(&small, 6000, 4000));
    // doubling saturates instead of overflowing
    let huge = thumb(ThumbKind::Jpeg, 1, u32::MAX);
    assert!(is_preview_thumb_large_enough(&huge, u32::MAX, 1));
}

#[test]
fn preview_choice_is_last_largest_viewable() {
    let thumbs = vec![
        thumb(ThumbKind::Jpeg, 640, 480),
        thumb(ThumbKind::Bitmap, 480, 640),
        thumb(ThumbKind::H265, 4000, 3000),
        thumb(ThumbKind::Bitmap16, 320, 240),
    ];
    assert_eq!(select_preview_thumb(&thumbs), Some(1));
    let none = vec![thumb(ThumbKind::Layer, 10, 10), thumb(ThumbKind::Unknown, 20, 20)];
    assert_eq!(select_preview_thumb(&none), None);
    assert_eq!(select_preview_thumb(&[]), None);
}

#[test]
fn thumbnail_choice_prefers_smallest_sufficient() {
    let thumbs = vec![
        thumb(ThumbKind::Jpeg, 1600, 1200),
        thumb(ThumbKind::Jpeg, 320, 240),
        thumb(ThumbKind::Jpeg, 640, 480),
        thumb(ThumbKind::Jpeg, 480, 640),
    ];
    assert_eq!(select_thumbnail_thumb(&thumbs, 256, true), Some(1));
    assert_eq!(select_thumbnail_thumb(&thumbs, 400, true), Some(2));
    assert_eq!(select_thumbnail_thumb(&thumbs, 5000, true), Some(0));
}

#[test]
fn thumbnail_choice_jpeg_preference() {
    let thumbs = vec![thumb(ThumbKind::Bitmap, 300, 200), thumb(ThumbKind::Jpeg, 160, 120)];
    assert_eq!(select_thumbnail_thumb(&thumbs, 256, true), Some(1));
    assert_eq!(select_thumbnail_thumb(&thumbs, 256, false), Some(0));
    let bitmaps = vec![thumb(ThumbKind::Bitmap16, 100, 100), thumb(ThumbKind::Layer, 900, 900)];
    assert_eq!(select_thumbnail_thumb(&bitmaps, 256, true), Some(0));
    assert_eq!(select_thumbnail_thumb(&[], 256, true), None);
}

#[test]
fn decode_rgb_bitmap() {
    let pic = decode_thumb_image(&rgb_thumb(4, 2)).unwrap();
    assert_eq!((pic.width(), pic.height()), (4, 2));
}

#[test]
fn decode_bitmap_errors() {
    let mut t = rgb_thumb(4, 2);
    t.data.pop();
    assert_eq!(
        decode_thumb_image(&t).err().unwrap(),
        "Failed to create RGB RAW thumbnail buffer"
    );
    t.colors = 1;
    t.data = vec![0; 7];
    assert_eq!(
        decode_thumb_image(&t).err().unwrap(),
        "Failed to create grayscale RAW thumbnail buffer"
    );
    t.colors = 2;
    assert_eq!(
        decode_thumb_image(&t).err().unwrap(),
        "Unsupported RAW thumbnail bitmap color count: 2"
    );
    t.format = ThumbKind::Rollei;
    assert_eq!(decode_thumb_image(&t).err().unwrap(), "Unsupported RAW thumbnail format: Rollei");
}

#[test]
fn decode_sixteen_bit_bitmap() {
    let t = Thumbnail {
        format: ThumbKind::Bitmap16,
        width: 2,
        height: 1,
        colors: 4,
        data: vec![0u8; 16],
    };
    let pic = decode_thumb_image(&t).unwrap();
    assert_eq!((pic.width(), pic.height()), (2, 1));
    let short = Thumbnail { data: vec![0u8; 15], ..t };
    assert_eq!(
        decode_thumb_image(&short).err().unwrap(),
        "Failed to create 16-bit RGBA RAW thumbnail buffer"
    );
    let odd = Thumbnail { colors: 5, ..short };
    assert_eq!(
        decode_thumb_image(&odd).err().unwrap(),
        "Unsupported 16-bit RAW thumbnail color count: 5"
    );
}

#[test]
fn high_bytes_of_pairs() {
    assert_eq!(high_bytes(&[1, 2, 3, 4, 5]), vec![2, 4]);
    assert_eq!(high_bytes(&[]), Vec::<u8>::new());
}

#[test]
fn decode_jpeg_thumbnail() {
    let pic = decode_thumb_image(&jpeg_thumb(24, 16)).unwrap();
    assert_eq!((pic.width(), pic.height()), (24, 16));
    let bad = Thumbnail { format: ThumbKind::Jpeg, width: 1, height: 1, colors: 3, data: vec![1, 2, 3] };
    let e = decode_thumb_image(&bad).err().unwrap();
    assert!(e.starts_with("Failed to decode JPEG RAW thumbnail: "));
}

#[test]
fn orientation_sizes() {
    for (o, swapped) in [(1, false), (2, false), (3, false), (4, false), (5, true), (6, true), (7, true), (8, true), (0, false), (9, false)] {
        let pic = picture(6, 2, vec![0u8; 36]);
        let out = orient_image(pic, o);
        let dims = (out.width(), out.height());
        assert_eq!(dims, if swapped { (2, 6) } else { (6, 2) }, "orientation {}", o);
    }
}

#[test]
fn jpeg_round_trip_size() {
    let bytes = jpeg_bytes(10, 7);
    assert!(is_jpeg(&bytes));
    assert_eq!(jpeg_dims(&bytes), (10, 7));
}

#[test]
fn raw_dimensions_checked() {
    assert_eq!(get_raw_dimensions(6000, 4000), Ok((6000, 4000)));
    assert_eq!(get_raw_dimensions(0, 4000), Err("rsraw resolved empty RAW dimensions".to_string()));
    assert_eq!(get_raw_dimensions(6000, 0), Err("rsraw resolved empty RAW dimensions".to_string()));
}

#[test]
fn preview_from_embedded_for_generic_raw() {
    let thumbs = Some(vec![rgb_thumb(8, 6), jpeg_thumb(16, 12)]);
    match get_raw_preview_image("x.arw", 6, 6000, 4000, &thumbs) {
        RawStep::Finished(Ok(Some(bytes))) => {
            assert_eq!(jpeg_dims(&bytes), (12, 16));
        }
        other => panic!("unexpected {:?}", other),
    }
}

#[test]
fn preview_small_embedded_for_nef_needs_render() {
    let thumbs = Some(vec![jpeg_thumb(16, 12)]);
    assert!(matches!(get_raw_preview_image("x.NEF", 1, 6000, 4000, &thumbs), RawStep::RenderProcessed));
    assert!(matches!(get_raw_preview_image("x.nef", 1, 20, 10, &thumbs), RawStep::Finished(Ok(Some(_)))));
    assert!(matches!(get_raw_preview_image("x.cr2", 1, 20, 10, &None), RawStep::RenderProcessed));
    let broken = Some(vec![Thumbnail { format: ThumbKind::Jpeg, width: 9, height: 9, colors: 3, data: vec![0; 4] }]);
    assert!(matches!(get_raw_preview_image("x.cr2", 1, 20, 10, &broken), RawStep::RenderProcessed));
}

#[test]
fn thumbnail_from_embedded() {
    let thumbs = Some(vec![rgb_thumb(40, 30), jpeg_thumb(20, 10)]);
    match get_raw_thumbnail("x.raf", 1, 5, &thumbs) {
        RawStep::Finished(Ok(Some(bytes))) => {
            assert_eq!(jpeg_dims(&bytes), (10, 5));
        }
        other => panic!("unexpected {:?}", other),
    }
    assert!(matches!(get_raw_thumbnail("x.raf", 1, 5, &Some(vec![])), RawStep::RenderProcessed));
}

#[test]
fn processed_preview_steps() {
    let raster = ProcessedRaster {
        format: ProcessedKind::Bitmap,
        width: 8,
        height: 4,
        colors: 3,
        data: vec![50u8; 96],
    };
    let bytes = render_processed_preview(&raster, 4).unwrap();
    assert_eq!(jpeg_dims(&bytes), (4, 2));
    let tall = ProcessedRaster {
        format: ProcessedKind::Bitmap,
        width: 1,
        height: 4096,
        colors: 3,
        data: vec![50u8; 3 * 4096],
    };
    let bytes = finish_raw_preview(&tall, 6).unwrap().unwrap();
    assert_eq!(jpeg_dims(&bytes), (4096, 1));
    let bytes = finish_raw_thumbnail(&raster, 1, 2).unwrap().unwrap();
    assert_eq!(jpeg_dims(&bytes), (4, 2));
}

#[test]
fn processed_preview_errors() {
    let raster = ProcessedRaster { format: ProcessedKind::Bitmap, width: 8, height: 4, colors: 2, data: vec![0; 64] };
    assert_eq!(render_processed_preview(&raster, 0).err().unwrap(), "Unsupported processed RAW channel count: 2");
    let short = ProcessedRaster { colors: 4, ..raster };
    assert_eq!(finish_raw_preview(&short, 1).err().unwrap(), "Failed to create processed RGBA RAW image");
    let jpeg = ProcessedRaster { format: ProcessedKind::Jpeg, width: 0, height: 0, colors: 3, data: vec![9; 3] };
    assert!(finish_raw_thumbnail(&jpeg, 1, 64).err().unwrap().starts_with("Failed to decode processed RAW JPEG preview: "));
}

#[test]
fn flips_and_turns_move_pixels() {
    // four different grays, so that every flip or turn moves some of them
    let data: Vec<u8> = [255u8, 170, 85, 0].iter().flat_map(|&g| [g, g, g]).collect();
    let encode = |o: i32| encode_as_jpeg(&orient_image(picture(2, 2, data.clone()), o)).unwrap();
    let base = encode(1);
    for o in [2, 3, 4, 5, 6, 7, 8] {
        assert_ne!(encode(o), base, "orientation {}", o);
    }
    assert_eq!(encode(0), base);
}

#[test]
fn jpeg_stream_framing_and_size_limits() {
    let bytes = jpeg_bytes(3, 2);
    assert_eq!(&bytes[..2], &[0xFF, 0xD8]);
    assert_eq!(&bytes[bytes.len() - 2..], &[0xFF, 0xD9]);
    let empty = picture(0, 0, Vec::new());
    assert!(encode_as_jpeg(&empty).err().unwrap().starts_with("Failed to encode image as JPEG: "));
    let wide = picture(65536, 1, vec![0u8; 65536 * 3]);
    assert!(encode_as_jpeg(&wide).err().unwrap().starts_with("Failed to encode image as JPEG: "));
}

#[test]
fn sixteen_bit_samples_keep_their_second_byte() {
    let wide = Thumbnail { format: ThumbKind::Bitmap16, width: 1, height: 1, colors: 1, data: vec![0x12, 0x34] };
    let high = Thumbnail { format: ThumbKind::Bitmap, width: 1, height: 1, colors: 1, data: vec![0x34] };
    let low = Thumbnail { format: ThumbKind::Bitmap, width: 1, height: 1, colors: 1, data: vec![0x12] };
    let wide_jpeg = encode_as_jpeg(&decode_thumb_image(&wide).unwrap()).unwrap();
    assert_eq!(wide_jpeg, encode_as_jpeg(&decode_thumb_image(&high).unwrap()).unwrap());
    assert_ne!(wide_jpeg, encode_as_jpeg(&decode_thumb_image(&low).unwrap()).unwrap());
}

#[test]
fn orientations_all_differ() {
    let data: Vec<u8> = [255u8, 170, 85, 0].iter().flat_map(|&g| [g, g, g]).collect();
    let encode = |o: i32| encode_as_jpeg(&orient_image(picture(2, 2, data.clone()), o)).unwrap();
    let all: Vec<Vec<u8>> = (1..=8).map(encode).collect();
    for i in 0..8 {
        for j in (i + 1)..8 {
            assert_ne!(all[i], all[j], "orientations {} and {}", i + 1, j + 1);
        }
    }
}

#[test]
fn embedded_preview_is_the_oriented_thumbnail() {
    let data: Vec<u8> = (0..24u8).map(|v| v * 10).collect();
    let t = Thumbnail { format: ThumbKind::Bitmap, width: 4, height: 2, colors: 3, data };
    let expected = encode_as_jpeg(&orient_image(decode_thumb_image(&t).unwrap(), 8)).unwrap();
    match get_raw_preview_image("x.arw", 8, 4000, 3000, &Some(vec![t])) {
        RawStep::Finished(Ok(Some(bytes))) => assert_eq!(bytes, expected),
        other => panic!("unexpected {:?}", other),
    }
}

#[test]
fn rendered_preview_is_at_most_4096() {
    let raster = ProcessedRaster {
        format: ProcessedKind::Bitmap,
        width: 8192,
        height: 2,
        colors: 1,
        data: vec![90u8; 8192 * 2],
    };
    let bytes = finish_raw_preview(&raster, 1).unwrap().unwrap();
    assert_eq!(jpeg_dims(&bytes), (4096, 1));
    assert_eq!(jpeg_dims(&render_processed_preview(&raster, 0).unwrap()), (8192, 2));
}

#[test]
fn bitmaps_longer_than_their_pixels_encode() {
    let t = Thumbnail { format: ThumbKind::Bitmap, width: 1, height: 1, colors: 3, data: vec![1, 2, 3, 4] };
    let exact = Thumbnail { format: ThumbKind::Bitmap, width: 1, height: 1, colors: 3, data: vec![1, 2, 3] };
    let bytes = encode_as_jpeg(&decode_thumb_image(&t).unwrap()).unwrap();
    assert_eq!(bytes, encode_as_jpeg(&decode_thumb_image(&exact).unwrap()).unwrap());
    let wide = Thumbnail { format: ThumbKind::Bitmap16, width: 1, height: 1, colors: 1, data: vec![0, 9, 0, 7] };
    assert!(encode_as_jpeg(&decode_thumb_image(&wide).unwrap()).is_ok());
    let thumbs = Some(vec![t]);
    assert!(matches!(get_raw_preview_image("x.arw", 1, 10, 10, &thumbs), RawStep::Finished(Ok(Some(_)))));
    assert!(matches!(get_raw_thumbnail("x.arw", 1, 1, &thumbs), RawStep::Finished(Ok(Some(_)))));
    let raster = ProcessedRaster { format: ProcessedKind::Bitmap, width: 2, height: 1, colors: 3, data: vec![7u8; 10] };
    assert_eq!(jpeg_dims(&render_processed_preview(&raster, 0).unwrap()), (2, 1));
}

#[test]
fn orientation_applied_twice_gives_the_picture_back() {
    let data: Vec<u8> = (0..18u8).map(|v| v * 14).collect();
    let base = encode_as_jpeg(&picture(3, 2, data.clone())).unwrap();
    for o in [2, 3, 4, 5, 7] {
        let twice = orient_image(orient_image(picture(3, 2, data.clone()), o), o);
        assert_eq!(encode_as_jpeg(&twice).unwrap(), base, "orientation {}", o);
    }
    let turned = orient_image(orient_image(picture(3, 2, data.clone()), 6), 8);
    assert_eq!(encode_as_jpeg(&turned).unwrap(), base);
    let turned = orient_image(orient_image(picture(3, 2, data.clone()), 8), 6);
    assert_eq!(encode_as_jpeg(&turned).unwrap(), base);
}
