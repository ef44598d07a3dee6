use wallscape::cache::{
    cache_file_name, motionbgs_source_id, motionbgs_video_extension, wallhaven_image_extension,
    wallhaven_source_id,
};

#[test]
fn motionbgs_video_extension_accepts_mp4() {
    assert_eq!(motionbgs_video_extension("MP4"), Ok("mp4"));
}

#[test]
fn motionbgs_video_extension_rejects_unknown_formats() {
    assert_eq!(
        motionbgs_video_extension("webm"),
        Err("Unsupported MotionBGS video format".to_string()),
    );
}

#[test]
fn motionbgs_source_id_rejects_path_characters() {
    assert_eq!(
        motionbgs_source_id("../1964"),
        Err("Invalid MotionBGS source id".to_string()),
    );
}

#[test]
fn wallhaven_image_extension_normalizes_jpeg_variants() {
    assert_eq!(wallhaven_image_extension("jpg"), Ok("jpg"));
    assert_eq!(wallhaven_image_extension("JPEG"), Ok("jpg"));
}

#[test]
fn wallhaven_image_extension_accepts_png() {
    assert_eq!(wallhaven_image_extension("PNG"), Ok("png"));
}

#[test]
fn wallhaven_image_extension_rejects_unknown_formats() {
    assert_eq!(
        wallhaven_image_extension("gif"),
        Err("Unsupported Wallhaven image format".to_string()),
    );
}

#[test]
fn wallhaven_source_id_rejects_path_characters() {
    assert_eq!(
        wallhaven_source_id("../abc123"),
        Err("Invalid Wallhaven source id".to_string()),
    );
}

#[test]
fn source_ids_are_trimmed_when_accepted() {
    assert_eq!(motionbgs_source_id(" 1964-4k "), Ok("1964-4k".to_string()));
    assert_eq!(wallhaven_source_id(" abc123 "), Ok("abc123".to_string()));
    assert!(motionbgs_source_id("   ").is_err());
    assert!(wallhaven_source_id("abc-123").is_err());
}

#[test]
fn cache_file_name_joins_id_and_extension() {
    assert_eq!(cache_file_name("1964-4k", "mp4"), "1964-4k.mp4");
}
