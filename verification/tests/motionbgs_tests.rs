use wallscape::motionbgs::{
    download_link_labels, has_next_page, is_motionbgs_download_url, is_mp4_content_type,
    motionbgs_download_source_id, motionbgs_feed_path, motionbgs_metadata, parse_detail_wallpaper,
    parse_listing_wallpapers, preferred_download, search_url, size_text, title_from_slug,
    DownloadedMotionBgsVideo, MotionBgsDownloadOption, MotionBgsWallpaper,
};
use wallscape::mp4::mp4_duration_ms;

const LISTING_HTML: &str = r#"
    <div class=tmb>
      <a title="Nature in Minecraft live wallpaper" href=/nature-in-minecraft>
        <figure><picture><img alt="nature in minecraft live wallpaper" src=/i/c/364x205/media/1964/nature-in-minecraft.jpg></picture></figure>
        <span class=ttl>Nature in Minecraft</span>
        <span class=frm> 4K </span>
      </a>
    </div>
    <section class=pag><a href=/search?q=minecraft&page=2>Next</a></section>
"#;

const DETAIL_HTML: &str = r#"
    <meta property=og:title content="Nature in Minecraft Live Wallpaper">
    <meta property=og:url content="https://motionbgs.com/nature-in-minecraft">
    <meta property=og:image content="https://motionbgs.com/media/1964/nature-in-minecraft.jpg">
    <meta property=og:video content="https://motionbgs.com/media/1964/nature-in-minecraft.960x540.mp4">
    <ul class=subtags><li><a href=/tag:games/><span>Games</span></a></li><li><a href=/tag:minecraft/><span>Minecraft</span></a></li></ul>
    <section class=dl>
      <a href=/dl/4k/1964><div><span>4K</span> Wallpaper (14.0Mb)</div><div>3840x2160 mp4 file</div></a>
      <a href=/dl/hd/1964><div><span>HD</span> Wallpaper (7.7Mb)</div><div>1920x1080 mp4 file</div></a>
    </section>
"#;

/// The byte sizes of the download labels of a detail page, as the
/// application computes them from the megabyte figures.
fn label_sizes(page: &str) -> Vec<Option<i64>> {
    download_link_labels(page)
        .iter()
        .map(|label| {
            size_text(label)
                .and_then(|t| t.parse::<f64>().ok())
                .map(|mb| (mb * 1024.0 * 1024.0).round() as i64)
        })
        .collect()
}

fn fallback_wallpaper() -> MotionBgsWallpaper {
    MotionBgsWallpaper {
        id: "1964".to_string(),
        slug: "nature-in-minecraft".to_string(),
        title: "Nature in Minecraft".to_string(),
        url: "https://motionbgs.com/nature-in-minecraft".to_string(),
        thumbnail_url: "https://motionbgs.com/i/c/364x205/media/1964/nature-in-minecraft.jpg"
            .to_string(),
        preview_video_url: None,
        quality: "4K".to_string(),
        width: 3840,
        height: 2160,
        file_size: 0,
        tags: Vec::new(),
        downloads: Vec::new(),
    }
}

#[test]
fn listing_parser_extracts_public_cards() {
    let wallpapers = parse_listing_wallpapers(LISTING_HTML);

    assert_eq!(wallpapers.len(), 1);
    assert_eq!(wallpapers[0].id, "1964");
    assert_eq!(wallpapers[0].title, "Nature in Minecraft");
    assert_eq!(wallpapers[0].quality, "4K");
    assert_eq!(wallpapers[0].width, 3840);
    assert_eq!(
        wallpapers[0].thumbnail_url,
        "https://motionbgs.com/i/c/960x540/media/1964/nature-in-minecraft.jpg"
    );
    assert_eq!(
        wallpapers[0].preview_video_url.as_deref(),
        Some("https://motionbgs.com/media/1964/nature-in-minecraft.960x540.mp4")
    );
    assert_eq!(
        wallpapers[0]
            .downloads
            .iter()
            .map(|download| download.quality.as_str())
            .collect::<Vec<_>>(),
        vec!["4K", "HD"]
    );
    assert!(has_next_page(LISTING_HTML));
}

#[test]
fn detail_parser_extracts_video_downloads_and_tags() {
    let fallback = fallback_wallpaper();
    let sizes = label_sizes(DETAIL_HTML);

    let wallpaper = parse_detail_wallpaper(DETAIL_HTML, &fallback, &sizes).expect("detail parses");

    assert_eq!(wallpaper.id, "1964");
    assert_eq!(
        wallpaper.preview_video_url.as_deref(),
        Some("https://motionbgs.com/media/1964/nature-in-minecraft.960x540.mp4")
    );
    assert_eq!(wallpaper.tags, vec!["Games", "Minecraft"]);
    assert_eq!(wallpaper.downloads.len(), 2);
    assert_eq!(wallpaper.downloads[0].file_size, 14_680_064);
}

#[test]
fn download_url_validation_accepts_only_public_mp4_routes() {
    assert!(is_motionbgs_download_url("https://motionbgs.com/dl/4k/1964/"));
    assert!(is_motionbgs_download_url("https://motionbgs.com/dl/hd/1964/"));
    assert!(!is_motionbgs_download_url("https://motionbgs.com/ajax/file/1964"));
    assert!(!is_motionbgs_download_url("https://example.com/dl/4k/1964/"));
}

#[test]
fn feed_paths_match_motionbgs_pagination_routes() {
    assert_eq!(motionbgs_feed_path(None, 1), "/");
    assert_eq!(motionbgs_feed_path(None, 2), "/2/");
    assert_eq!(motionbgs_feed_path(Some("4k"), 1), "/4k/");
    assert_eq!(motionbgs_feed_path(Some("4k"), 2), "/4k/2/");
    assert_eq!(motionbgs_feed_path(Some("mobile"), 2), "/mobile/2/");
    assert_eq!(motionbgs_feed_path(Some("gifs"), 2), "/gifs/2/");
}

#[test]
fn download_source_id_includes_selected_quality() {
    let wallpaper = MotionBgsWallpaper {
        thumbnail_url: "https://motionbgs.com/media/1964/nature-in-minecraft.jpg".to_string(),
        ..fallback_wallpaper()
    };

    assert_eq!(motionbgs_download_source_id(&wallpaper), "1964-4k");
}

fn mp4_box(name: &[u8; 4], payload: &[u8]) -> Vec<u8> {
    let mut bytes = Vec::with_capacity(8 + payload.len());
    bytes.extend_from_slice(&((8 + payload.len()) as u32).to_be_bytes());
    bytes.extend_from_slice(name);
    bytes.extend_from_slice(payload);
    bytes
}

#[test]
fn parses_mp4_duration_from_mvhd() {
    let mut mvhd_payload = vec![0_u8; 100];
    mvhd_payload[12..16].copy_from_slice(&1_000_u32.to_be_bytes());
    mvhd_payload[16..20].copy_from_slice(&2_500_u32.to_be_bytes());

    let mvhd = mp4_box(b"mvhd", &mvhd_payload);
    let moov = mp4_box(b"moov", &mvhd);
    let ftyp = mp4_box(b"ftyp", b"isom0000");
    let bytes = [ftyp, moov].concat();

    assert_eq!(mp4_duration_ms(&bytes), Some(2_500));
}

#[test]
fn mp4_without_movie_header_has_no_duration() {
    let ftyp = mp4_box(b"ftyp", b"isom0000");
    assert_eq!(mp4_duration_ms(&ftyp), None);
    assert_eq!(mp4_duration_ms(&[0, 0, 0]), None);
}

#[test]
fn size_label_gives_its_megabyte_figure() {
    assert_eq!(size_text("4K Wallpaper (14.0Mb)").as_deref(), Some("14.0"));
    assert_eq!(size_text("no size here"), None);
}

#[test]
fn slug_becomes_a_title() {
    assert_eq!(title_from_slug("nature-in-minecraft"), "Nature In Minecraft");
}

#[test]
fn mp4_content_type_is_recognised_in_any_case() {
    assert!(is_mp4_content_type("Video/MP4; charset=binary"));
    assert!(!is_mp4_content_type("text/html"));
}

#[test]
fn search_url_is_built_on_the_site() {
    let url = search_url(Some("minecraft".to_string()), None, 2).expect("search url");
    assert!(url.as_str().starts_with("https://motionbgs.com/"));
    assert!(url.as_str().contains("minecraft"));
}

#[test]
fn preferred_download_matches_listed_quality() {
    let option = |quality: &str| MotionBgsDownloadOption {
        quality: quality.to_string(),
        url: format!("https://motionbgs.com/dl/{}/1964/", quality.to_lowercase()),
        width: 0,
        height: 0,
        file_size: 0,
    };
    let wallpaper = MotionBgsWallpaper {
        quality: "HD".to_string(),
        downloads: vec![option("4K"), option("HD")],
        ..fallback_wallpaper()
    };
    let chosen = preferred_download(&wallpaper).expect("a download");
    assert_eq!(chosen.quality, "HD");
}

#[test]
fn downloaded_video_metadata_lists_source_and_quality_tags() {
    let download = MotionBgsDownloadOption {
        quality: "4K".to_string(),
        url: "https://motionbgs.com/dl/4k/1964/".to_string(),
        width: 3840,
        height: 2160,
        file_size: 1,
    };
    let video = DownloadedMotionBgsVideo {
        bytes: Vec::new(),
        extension: "mp4",
        wallpaper: MotionBgsWallpaper {
            tags: vec!["Games".to_string()],
            ..fallback_wallpaper()
        },
        download,
    };
    let metadata = motionbgs_metadata(&video, "1964-4k", 2500);
    assert_eq!(metadata.tags, vec!["motionbgs", "4K", "Games"]);
    assert_eq!(metadata.fps, 60);
    assert_eq!(metadata.duration_ms, 2500);
    assert_eq!(metadata.media_type, "video");
    assert_eq!(metadata.source_id.as_deref(), Some("1964-4k"));
}
