use lap_media::metadata::{build_video_metadata, first_exist, parse_apple_iso6709, MetadataTags, VideoMetadataFields};
use lap_media::video::{
    frame_search_step, pack_rgb_rows, rotation_from_tag, seek_target,
    video_frame_thumbnail, FrameAction, FrameEvent,
};

#[test]
fn seeking_a_tenth_in() {
    assert_eq!(seek_target(true, 1000), Some(100));
    assert_eq!(seek_target(true, 0), None);
    assert_eq!(seek_target(false, 1000), None);
}

#[test]
fn rotation_tags() {
    assert_eq!(rotation_from_tag(Some("90")), 90);
    assert_eq!(rotation_from_tag(Some("-270")), -270);
    assert_eq!(rotation_from_tag(Some("ninety")), 0);
    assert_eq!(rotation_from_tag(None), 0);
}

#[test]
fn packing_rows_with_stride() {
    let data: Vec<u8> = (0u8..20).collect();
    // 1 pixel wide rows (3 bytes), 8 bytes apart
    assert_eq!(pack_rgb_rows(&data, 1, 2, 8), Some(vec![0, 1, 2, 8, 9, 10]));
    assert_eq!(pack_rgb_rows(&data, 1, 3, 8), Some(vec![0, 1, 2, 8, 9, 10, 16, 17, 18]));
    assert_eq!(pack_rgb_rows(&data, 1, 4, 8), None);
    assert_eq!(pack_rgb_rows(&data, 2, 2, 5), None);
    assert_eq!(pack_rgb_rows(&data, 2, 0, 6), Some(vec![]));
}

#[test]
fn frame_thumbnail() {
    let data = vec![100u8; 4 * 2 * 3 + 5];
    let bytes = video_frame_thumbnail(&data, 4, 2, 12, 2, 90).unwrap().unwrap();
    let img = image::load_from_memory(&bytes).unwrap();
    assert_eq!((img.width(), img.height()), (2, 4));
    assert_eq!(video_frame_thumbnail(&data, 4, 3, 12, 2, 0).unwrap(), None);
}

#[test]
fn tags_are_lower_cased_and_replaced() {
    let mut t = MetadataTags::new();
    t.insert("Make", "Apple");
    t.insert("MAKE", "Sony");
    assert_eq!(t.get("make"), Some("Sony".to_string()));
    assert_eq!(t.get("Make"), None);
    assert_eq!(t.get("model"), None);
}

#[test]
fn first_existing_tag() {
    let mut t = MetadataTags::new();
    t.insert("camera_model", "X100");
    t.insert("com.apple.quicktime.model", "iPhone");
    assert_eq!(first_exist(&t, &["model", "camera_model", "com.apple.quicktime.model"]), Some("X100".to_string()));
    assert_eq!(first_exist(&t, &["model"]), None);
    assert_eq!(first_exist(&t, &[]), None);
}

#[test]
fn iso6709_location() {
    let mut m = VideoMetadataFields::new();
    parse_apple_iso6709(" +37.3317-122.0302+012.3/ ", &mut m);
    assert_eq!(m.gps_latitude.as_deref(), Some("+37.3317"));
    assert_eq!(m.gps_longitude.as_deref(), Some("-122.0302"));
    assert_eq!(m.gps_altitude.as_deref(), Some("+012.3"));
}

#[test]
fn iso6709_short_location_keeps_fields() {
    let mut m = VideoMetadataFields::new();
    m.gps_altitude = Some("5".to_string());
    parse_apple_iso6709("-33.8688+151.2093//", &mut m);
    assert_eq!(m.gps_latitude.as_deref(), Some("-33.8688"));
    assert_eq!(m.gps_longitude.as_deref(), Some("+151.2093"));
    assert_eq!(m.gps_altitude.as_deref(), Some("5"));
    let mut e = VideoMetadataFields::new();
    parse_apple_iso6709("  /", &mut e);
    assert_eq!(e.gps_latitude, None);
    let mut u = VideoMetadataFields::new();
    parse_apple_iso6709("12.5", &mut u);
    assert_eq!(u.gps_latitude.as_deref(), Some("12.5"));
    assert_eq!(u.gps_longitude, None);
}

#[test]
fn metadata_fields_from_tags() {
    let mut t = MetadataTags::new();
    t.insert("com.apple.quicktime.make", "Apple");
    t.insert("com.apple.quicktime.model", "iPhone 15");
    t.insert("encoder", "Lavf");
    t.insert("creation_time", "2024-08-08T10:00:00Z");
    t.insert("com.apple.quicktime.location.ISO6709", "+37.3317-122.0302+012.3/");
    let m = build_video_metadata(&t);
    assert_eq!(m.e_make.as_deref(), Some("Apple"));
    assert_eq!(m.e_model.as_deref(), Some("iPhone 15"));
    assert_eq!(m.e_software.as_deref(), Some("Lavf"));
    assert_eq!(m.e_date_time.as_deref(), Some("2024-08-08T10:00:00Z"));
    assert_eq!(m.gps_latitude.as_deref(), Some("+37.3317"));
    assert_eq!(m.gps_longitude.as_deref(), Some("-122.0302"));
    assert_eq!(m.gps_altitude.as_deref(), Some("+012.3"));
}

#[test]
fn vendor_gps_tags_override_location() {
    let mut t = MetadataTags::new();
    t.insert("location", "+1.0+2.0+3.0/");
    t.insert("gps_latitude", "10.5");
    t.insert("gps_altitude", "bad");
    t.insert("com.dji.gpslongitude", "20.25");
    t.insert("gps_longitude", "7");
    let m = build_video_metadata(&t);
    assert_eq!(m.gps_latitude.as_deref(), Some("10.5"));
    assert_eq!(m.gps_longitude.as_deref(), Some("20.25"));
    assert_eq!(m.gps_altitude.as_deref(), Some("bad"));
    assert_eq!(m.e_make, None);
}

#[test]
fn iso6709_parts_rejoin_to_the_text() {
    let mut m = VideoMetadataFields::new();
    parse_apple_iso6709("-12.5+100-7", &mut m);
    let joined = format!(
        "{}{}{}",
        m.gps_latitude.unwrap(),
        m.gps_longitude.unwrap(),
        m.gps_altitude.unwrap()
    );
    assert_eq!(joined, "-12.5+100-7");
}

#[test]
fn contiguous_rows_pack_unchanged() {
    let data: Vec<u8> = (0u8..40).collect();
    assert_eq!(pack_rgb_rows(&data, 2, 3, 6), Some(data[..18].to_vec()));
}

#[test]
fn stream_rotation_direction() {
    // one black and one white pixel side by side
    let data = vec![0u8, 0, 0, 255, 255, 255];
    let turn = |r: i32| video_frame_thumbnail(&data, 2, 1, 6, 1, r).unwrap().unwrap();
    assert_eq!(turn(90), turn(-270));
    assert_eq!(turn(270), turn(-90));
    assert_eq!(turn(180), turn(-180));
    assert_ne!(turn(90), turn(270));
    assert_ne!(turn(180), turn(0));
    assert_eq!(turn(45), turn(0));
}

#[test]
fn frame_search_decisions() {
    assert_eq!(frame_search_step(2, FrameEvent::SeekFailed), FrameAction::RestartWithoutSeek);
    assert_eq!(frame_search_step(2, FrameEvent::Packet(1)), FrameAction::SkipPacket);
    assert_eq!(frame_search_step(2, FrameEvent::Packet(2)), FrameAction::DecodePacket);
    assert_eq!(frame_search_step(2, FrameEvent::Decoded(false)), FrameAction::ReadNextPacket);
    assert_eq!(frame_search_step(2, FrameEvent::Decoded(true)), FrameAction::MakeThumbnail);
    assert_eq!(frame_search_step(2, FrameEvent::PacketsExhausted), FrameAction::NoThumbnail);
}
