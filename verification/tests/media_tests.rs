use wallscape::media::{is_supported_image_path, tags_from_path, title_from_path};

#[test]
fn title_from_path_removes_separator_noise() {
    let title = title_from_path("C:/videos/forest_mist-loop.mp4");
    assert_eq!(title, "forest mist loop");
}

#[test]
fn tags_from_path_includes_lowercase_extension() {
    let tags = tags_from_path("C:/videos/demo.MP4");
    assert_eq!(tags, vec!["local", "imported", "mp4"]);
}

#[test]
fn image_path_detection_is_case_insensitive() {
    assert!(is_supported_image_path("C:/wallpapers/Forest.JPG"));
}
