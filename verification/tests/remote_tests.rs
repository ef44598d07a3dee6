use wallscape::downloads::{
    attempt_message, ended_early_message, positive_bytes, remote_download_key, retry_decision,
    retry_message, should_retry_download_error, ByteDownload, RetryDecision,
    REMOTE_DOWNLOAD_MAX_ATTEMPTS,
};
use wallscape::organization::{
    normalize_filter_payload, normalize_filter_type, normalize_name, not_found_message,
    positive_id_check,
};
use wallscape::wallhaven::{
    checked_external_url, clean_ratios, clean_resolution, extension_from_content_type,
    extension_from_url, image_extension, is_wallhaven_image_url, sanitize_categories,
    sanitize_order, sanitize_purity, sanitize_sorting, search_request_from_args,
    wallhaven_metadata, wallhaven_search_url, WallhavenSearchArgs, WallhavenThumbs,
    WallhavenWallpaper,
};
use wallscape::motionbgs::{absolute_url, high_resolution_image_url, search_url};

#[test]
fn download_keys_and_messages() {
    assert_eq!(remote_download_key("wallhaven", "abc123"), "wallhaven:abc123");
    assert_eq!(attempt_message(1), "Starting download");
    assert_eq!(attempt_message(2), "Retrying download, attempt 2");
    assert_eq!(retry_message(2), "Download failed; retrying attempt 2 of 3");
    assert_eq!(
        ended_early_message("Wallhaven", 10, 20),
        "Wallhaven download ended early: received 10 of 20 bytes"
    );
    assert_eq!(positive_bytes(5), Some(5));
    assert_eq!(positive_bytes(0), None);
    assert_eq!(positive_bytes(-3), None);
}

#[test]
fn failed_downloads_are_retried_only_while_they_may_pass() {
    assert!(should_retry_download_error("Download failed: connection reset"));
    assert!(should_retry_download_error("HTTP 503 Service Unavailable"));
    assert!(!should_retry_download_error("HTTP 404 Not Found"));
    assert_eq!(
        retry_decision(1, "request TIMED OUT"),
        RetryDecision::Retry { next_attempt: 2, delay_ms: 750 }
    );
    assert_eq!(
        retry_decision(2, "http 429"),
        RetryDecision::Retry { next_attempt: 3, delay_ms: 1500 }
    );
    assert_eq!(retry_decision(REMOTE_DOWNLOAD_MAX_ATTEMPTS, "timed out"), RetryDecision::Fail);
    assert_eq!(retry_decision(1, "HTTP 404"), RetryDecision::Fail);
}

#[test]
fn downloads_are_held_to_their_size_limit() {
    assert!(ByteDownload::start(Some(11), 10).is_none());
    let mut download = ByteDownload::start(Some(8), 10).expect("within the limit");
    assert!(download.receive(4));
    assert!(download.receive(4));
    assert!(!download.receive(3));
    assert_eq!(download.progress().received_bytes, 8);
    assert_eq!(download.progress().total_bytes, Some(8));
    assert!(download.is_complete(8));
    assert!(!download.is_complete(7));
    let open = ByteDownload::start(None, 10).expect("no announced length");
    assert!(open.is_complete(3));
    assert!(!open.is_complete(11));
}

#[test]
fn wallhaven_parameters_are_sanitized() {
    assert_eq!(sanitize_categories(Some("010".to_string())), "010");
    assert_eq!(sanitize_categories(Some("999".to_string())), "111");
    assert_eq!(sanitize_purity(None), "100");
    assert_eq!(sanitize_sorting(Some("toplist".to_string())), "toplist");
    assert_eq!(sanitize_sorting(Some("newest".to_string())), "date_added");
    assert_eq!(sanitize_order(Some("asc".to_string())), "asc");
    assert_eq!(sanitize_order(Some("ASC".to_string())), "desc");
    assert_eq!(clean_resolution(Some(" 1920x1080 ".to_string())).as_deref(), Some("1920x1080"));
    assert_eq!(clean_resolution(Some("0x1080".to_string())), None);
    assert_eq!(clean_resolution(Some("16385x10".to_string())), None);
    assert_eq!(clean_ratios(Some("16x9,21x9".to_string())).as_deref(), Some("16x9,21x9"));
    assert_eq!(clean_ratios(Some("16x9,4x3".to_string())), None);
}

#[test]
fn wallhaven_search_url_carries_the_sanitized_query() {
    let request = search_request_from_args(WallhavenSearchArgs {
        query: Some("  forest ".to_string()),
        categories: None,
        purity: None,
        sorting: Some("relevance".to_string()),
        order: None,
        atleast: Some("1920x1080".to_string()),
        ratios: None,
        page: Some(500),
    });
    let url = wallhaven_search_url(request).expect("url");
    assert_eq!(
        url.as_str(),
        "https://wallhaven.cc/api/v1/search?categories=111&purity=100&sorting=relevance&order=desc&page=100&q=forest&atleast=1920x1080"
    );
    let without_query = search_request_from_args(WallhavenSearchArgs {
        query: None,
        categories: None,
        purity: None,
        sorting: Some("relevance".to_string()),
        order: None,
        atleast: None,
        ratios: None,
        page: None,
    });
    assert_eq!(
        wallhaven_search_url(without_query).expect("url").as_str(),
        "https://wallhaven.cc/api/v1/search?categories=111&purity=100&sorting=date_added&order=desc&page=1"
    );
}

#[test]
fn wallhaven_images_and_external_urls_are_checked() {
    assert!(is_wallhaven_image_url("https://w.wallhaven.cc/full/ab/wallhaven-abc123.jpg"));
    assert!(!is_wallhaven_image_url("http://w.wallhaven.cc/full/ab/wallhaven-abc123.jpg"));
    assert!(!is_wallhaven_image_url("https://example.com/a.jpg"));
    assert_eq!(extension_from_content_type("image/jpeg"), Some("jpg"));
    assert_eq!(extension_from_content_type("text/html"), None);
    assert_eq!(extension_from_url("https://w.wallhaven.cc/a.PNG"), Some("png"));
    assert_eq!(image_extension("", "https://w.wallhaven.cc/a.jpeg"), Ok("jpg"));
    assert_eq!(
        image_extension("text/html", "https://w.wallhaven.cc/a.gif"),
        Err("Wallhaven returned an unsupported image format".to_string())
    );
    assert!(checked_external_url(" https://WallHaven.cc/w/abc ").is_ok());
    assert!(checked_external_url("https://motionbgs.com/x").is_ok());
    assert_eq!(
        checked_external_url("http://wallhaven.cc/").map(|u| u.as_str().to_string()),
        Err("Only Wallhaven or MotionBGS HTTPS URLs can be opened".to_string())
    );
    assert_eq!(
        checked_external_url("not a url").map(|u| u.as_str().to_string()),
        Err("Invalid external URL".to_string())
    );
}

#[test]
fn wallhaven_download_metadata_names_the_wallpaper() {
    let wallpaper = WallhavenWallpaper {
        id: "abc123".to_string(),
        url: "https://wallhaven.cc/w/abc123".to_string(),
        short_url: "https://whvn.cc/abc123".to_string(),
        views: 1,
        favorites: 1,
        purity: "sfw".to_string(),
        category: "general".to_string(),
        dimension_x: 1920,
        dimension_y: 1080,
        resolution: "1920x1080".to_string(),
        ratio: "1.78".to_string(),
        file_size: 100,
        file_type: "image/jpeg".to_string(),
        created_at: "2024-01-01 00:00:00".to_string(),
        colors: Vec::new(),
        path: "https://w.wallhaven.cc/full/ab/wallhaven-abc123.jpg".to_string(),
        thumbs: WallhavenThumbs {
            large: "https://th.wallhaven.cc/lg/ab/abc123.jpg".to_string(),
            original: "https://th.wallhaven.cc/orig/ab/abc123.jpg".to_string(),
            small: "https://th.wallhaven.cc/small/ab/abc123.jpg".to_string(),
        },
    };
    let metadata = wallhaven_metadata(&wallpaper);
    assert_eq!(metadata.title, "Wallhaven general abc123");
    assert_eq!(metadata.tags, vec!["wallhaven", "general", "sfw"]);
    assert_eq!(metadata.media_type, "image");
    assert_eq!(metadata.thumbnail_path.as_deref(), Some("https://th.wallhaven.cc/lg/ab/abc123.jpg"));
}

#[test]
fn urls_are_parsed_joined_and_extended() {
    assert_eq!(
        absolute_url("/dl/4k/1964").as_deref(),
        Some("https://motionbgs.com/dl/4k/1964")
    );
    assert_eq!(
        high_resolution_image_url("https://motionbgs.com/i/c/364x205/media/1964/x.jpg").as_deref(),
        Some("https://motionbgs.com/i/c/960x540/media/1964/x.jpg")
    );
    let url = search_url(Some("a b&c".to_string()), None, 2).expect("search url");
    assert_eq!(url.scheme(), "https");
    assert_eq!(url.host(), Some("motionbgs.com"));
    assert_eq!(url.path(), "/search");
    assert_eq!(url.as_str(), "https://motionbgs.com/search?q=a+b%26c&page=2");
    assert_eq!(checked_external_url("::nope").err().as_deref(), Some("Invalid external URL"));
}

#[test]
fn collection_and_filter_names_are_normalized() {
    assert_eq!(normalize_name("  Nature  ", "Collection"), Ok("Nature".to_string()));
    assert_eq!(normalize_name("   ", "Collection"), Err("Collection name is required".to_string()));
    assert_eq!(
        normalize_name(&"x".repeat(65), "Filter"),
        Err("Filter name must be 64 characters or fewer".to_string())
    );
    assert_eq!(normalize_filter_type(" WallHaven "), Ok("wallhaven".to_string()));
    assert_eq!(
        normalize_filter_type("remote"),
        Err("Saved filter type must be local or wallhaven".to_string())
    );
    assert_eq!(normalize_filter_payload(" { \"q\" : 1 } "), Ok("{\"q\":1}".to_string()));
    assert_eq!(normalize_filter_payload("  "), Err("Saved filter payload is required".to_string()));
    assert_eq!(normalize_filter_payload("[1]"), Err("Saved filter payload must be a JSON object".to_string()));
    assert_eq!(normalize_filter_payload("{oops"), Err("Saved filter payload must be valid JSON".to_string()));
    assert_eq!(positive_id_check(0, "Invalid collection id"), Err("Invalid collection id".to_string()));
    assert_eq!(positive_id_check(4, "Invalid collection id"), Ok(()));
    assert_eq!(not_found_message("Collection", 4), "Collection 4 was not found");
}
