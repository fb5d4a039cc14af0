use base64::Engine;
use contile::server::img_storage::{
    already_exists, as_hash, image_url, bucket_name_is_valid, image_path_of, new_image, object_cache_control,
    upload_target, validate, ImageMetricSettings, ImageMetrics, StorageSettings,
};
use contile::settings::test_settings;

#[test]
fn test_config() {
    let test_val = r#"{"project_name": "project", "bucket_name": "bucket"}"#;
    let mut setting = test_settings();
    setting.storage = test_val.to_owned();
    let store_set = StorageSettings::from_settings(&setting).ok().expect("valid storage settings");
    assert!(store_set.project_name == *"project");
    assert!(store_set.bucket_name == *"bucket");
}

#[test]
fn invalid_bucket_is_refused() {
    let mut setting = test_settings();
    setting.storage = r#"{"project_name": "project", "bucket_name": "+bucket"}"#.to_owned();
    assert!(StorageSettings::from_settings(&setting).is_err());
    assert!(bucket_name_is_valid("moz_test-bucket1"));
    assert!(!bucket_name_is_valid("ab"));
    assert!(!bucket_name_is_valid("Bucket"));
    assert!(!bucket_name_is_valid("bucket-"));
}

#[test]
fn storage_defaults() {
    let setting = test_settings();
    let s = StorageSettings::from_settings(&setting).ok().expect("defaults");
    assert_eq!(s.bucket_name, "moz-topsites-stage-cdn");
    assert_eq!(s.cache_ttl, 86400 * 15);
    assert_eq!(s.metrics.max_size, 1_600_000);
    let mut setting = test_settings();
    setting.storage = r#"{"bucket_ttl": 60, "metrics": {"max_width": 512}}"#.to_owned();
    let s = StorageSettings::from_settings(&setting).ok().expect("valid");
    assert_eq!(s.bucket_ttl, Some(60));
    assert_eq!(s.metrics.max_width, 512);
    assert_eq!(s.metrics.min_width, 96);
    assert!(s.bucket_configured());
}

#[test]
fn svg_images_are_measured_by_fiat() {
    let limits = ImageMetricSettings::default_settings();
    let image = vec![0u8; 100];
    let m = validate(&limits, "https://example.com/a.svg", &image, "image/SVG").ok().expect("valid");
    assert_eq!(m, ImageMetrics { width: 128, height: 128, size: 100 });
}

#[test]
fn unknown_formats_and_bad_images_are_refused() {
    let limits = ImageMetricSettings::default_settings();
    let e = validate(&limits, "u", &[1, 2, 3], "image/gif").err().expect("error");
    assert_eq!(e.kind.message(), "Invalid Image: \"Invalid image format\"");
    assert_eq!(e.tags.extra.get("url"), Some(&"u".to_owned()));
    assert_eq!(e.tags.extra.get("format"), Some(&"image/gif".to_owned()));
    assert_eq!(e.tags.extra.len(), 2);
    let e = validate(&limits, "u", &[1, 2, 3], "image/png").err().expect("error");
    assert_eq!(e.kind.message(), "Invalid Image: \"Image unreadable\"");
    assert_eq!(e.tags.extra.get("url"), Some(&"u".to_owned()));
    assert!(e.tags.extra.get("error").is_some());
    assert_eq!(e.tags.extra.get("format"), Some(&"png".to_owned()));
    assert!(e.tags.tags.is_empty());
}

fn png(width: u32, height: u32) -> Vec<u8> {
    let img = image::RgbImage::new(width, height);
    let mut out = std::io::Cursor::new(Vec::new());
    image::DynamicImage::ImageRgb8(img).write_to(&mut out, image::ImageFormat::Png).expect("encode");
    out.into_inner()
}

#[test]
fn image_sizes_are_checked() {
    let limits = ImageMetricSettings::default_settings();
    let m = validate(&limits, "u", &png(96, 96), "image/png").ok().expect("valid");
    assert_eq!(m.width, 96);
    assert_eq!(m.height, 96);
    assert_eq!(m.size, 3 * 96 * 96);
    let e = validate(&limits, "u", &png(96, 100), "image/png").err().expect("error");
    assert_eq!(e.kind.message(), "Invalid Image: \"Non symmetric image\"");
    let e = validate(&limits, "u", &png(50, 50), "image/png").err().expect("error");
    assert_eq!(e.kind.message(), "Invalid Image: \"Invalid image size\"");
    assert_eq!(e.tags.extra.get("url"), Some(&"u".to_owned()));
    assert_eq!(
        e.tags.extra.get("metrics"),
        Some(&"ImageMetrics { width: 50, height: 50, size: 7500 }".to_owned())
    );
    assert_eq!(e.tags.extra.len(), 2);
}

#[test]
fn images_are_named_by_content() {
    let data = b"hello world".to_vec();
    let hash = as_hash(&data);
    assert_eq!(hash.len(), 43);
    assert_ne!(as_hash(b"hello world!"), hash);
    assert_eq!(image_path_of(&data, "image/png"), format!("{}.11.png", hash));
    assert_eq!(image_path_of(&data, "image/jpeg"), format!("{}.11.jpg", hash));
    assert_eq!(image_path_of(&data, "text/plain"), format!("{}.11..oct", hash));
}

#[test]
fn hashes_are_url_safe_base64_of_blake3() {
    for data in [&b""[..], &b"f"[..], &b"foobar"[..], &[0xfb, 0xff, 0xfe][..]] {
        let expected = base64::engine::general_purpose::URL_SAFE_NO_PAD.encode(blake3::hash(data).as_bytes());
        assert_eq!(as_hash(data), expected);
        // 32 bytes make 43 characters without padding.
        assert_eq!(as_hash(data).len(), 43);
        assert!(!as_hash(data).contains('+') && !as_hash(data).contains('/') && !as_hash(data).contains('='));
    }
}

#[test]
fn uploads_go_to_the_cdn() {
    let mut settings = StorageSettings::default_settings();
    settings.cdn_host = "https://cdn.example.com".to_owned();
    let (path, url) = upload_target(&settings, b"abc", "image/png").ok().expect("target");
    assert_eq!(url, format!("https://cdn.example.com/{}", path));
    settings.bucket_name = String::new();
    let e = upload_target(&settings, b"abc", "image/png").err().expect("error");
    assert_eq!(e.kind.message(), "Internal error: \"No storage bucket defined\"");
    assert_eq!(object_cache_control(3600), "public, max-age=3600");
}

#[test]
fn stored_images_expire() {
    let m = ImageMetrics { width: 1, height: 1, size: 3 };
    let a = new_image(900, None, "u".to_owned(), m, 100, 1000);
    assert_eq!(a.expiry, 1900);
    let b = new_image(900, Some(50), "u".to_owned(), m, 100, 1000);
    assert_eq!(b.expiry, 150);
    assert!(b.expired_at(150));
    assert!(!a.expired_at(1899));
}

#[test]
fn precondition_failures_are_recognised() {
    assert_eq!(already_exists(r#"{"error": {"code": 412, "message": "x"}}"#).ok(), Some(true));
    assert_eq!(already_exists(r#"{"error": {"code": 403}}"#).ok(), Some(false));
    let e = already_exists("not json").err().expect("error");
    let m = e.kind.message();
    assert!(m.starts_with("Internal error: \"Could not parse cloud_storage::Error::Other: ("));
    assert!(m.ends_with(") \\\"not json\\\"\""));
}

/// A JPEG image of the given size.
fn test_image_buffer(height: u32, width: u32) -> Vec<u8> {
    let img = image::RgbImage::from_fn(width, height, |x, y| image::Rgb([(x % 255) as u8, (y % 255) as u8, 7]));
    let mut out = std::io::Cursor::new(Vec::new());
    image::DynamicImage::ImageRgb8(img).write_to(&mut out, image::ImageFormat::Jpeg).expect("encode");
    out.into_inner()
}

#[test]
fn test_image_validate() {
    let test_valid_image = test_image_buffer(96, 96);
    let limits = ImageMetricSettings::default_settings();
    let result = validate(&limits, "https://example.com/test.jpg", &test_valid_image, "image/jpg").ok().expect("valid");
    assert!(result.height == 96);
    assert!(result.width == 96);
}

#[test]
fn test_image_invalidate_offsize() {
    let test_valid_image = test_image_buffer(96, 100);
    let limits = ImageMetricSettings::default_settings();
    assert!(validate(&limits, "https://example.com/test.jpg", &test_valid_image, "image/jpg").is_err());
}

#[test]
#[should_panic]
fn test_invalid_bucket() {
    let test_val = r#"{"project_name": "project", "bucket_name": "+bucket"}"#;
    let mut setting = test_settings();
    setting.storage = test_val.to_owned();
    let _store_set: StorageSettings = StorageSettings::from_settings(&setting).unwrap();
}

#[test]
fn cdn_urls_must_parse() {
    assert_eq!(image_url("https://cdn.example.com/a.png".to_owned()).ok().as_deref(), Some("https://cdn.example.com/a.png"));
    let e = image_url("https://cdn example.com/a.png".to_owned()).err().expect("error");
    assert!(e.kind.message().starts_with("Internal error: \"Invalid URL: InvalidUri("));
}
