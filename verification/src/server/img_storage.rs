//! Image storage: its settings, the checks that an image must pass, the name it is
//! stored under, and how long a stored image is trusted.
use vstd::prelude::*;
use vstd::string::*;

use crate::adm::settings::ConfigError;
use crate::codec::{base64_encode, base64_no_pad, blake3_digest, blake3_hash, Alphabet};
use crate::error::{debug_quoted, debug_string, HandlerError, HandlerErrorKind, HandlerResult, KindView};
use crate::json::{member_index, obj_get, parse_json, serde_json_from_str, JsonValue};
use crate::settings::Settings;
use crate::tags::{with_entry, Tags};
use crate::text::{concat, copy_str, decimal, decimal_string, str_eq, to_lowercase, unicode_lowercase};
use crate::web_url::{http_uri_error, uri_error};

verus! {

/// Limits on the images that are stored.
#[derive(Debug)]
pub struct ImageMetricSettings {
    /// maximum length of the image
    pub max_size: u64,
    /// max image height
    pub max_height: u64,
    pub max_width: u64,
    pub min_height: u64,
    pub min_width: u64,
    pub symmetric: bool,
}

impl ImageMetricSettings {
    /// The default limits: 96 to 256 pixels square, at most 1,600,000 bytes.
    pub fn default_settings() -> (r: ImageMetricSettings)
        ensures
            r.max_size == 1_600_000,
            r.max_height == 256,
            r.max_width == 256,
            r.min_height == 96,
            r.min_width == 96,
            r.symmetric,
    {
        ImageMetricSettings {
            max_size: 1_600_000,
            max_height: 256,
            max_width: 256,
            min_height: 96,
            min_width: 96,
            symmetric: true,
        }
    }
}

/// Where and how images are stored.
#[derive(Debug)]
pub struct StorageSettings {
    /// The GCP Cloud storage project name
    pub project_name: String,
    /// The Bucket name for this data
    pub bucket_name: String,
    /// The external CDN host
    pub cdn_host: String,
    /// The bucket TTL is determined by the policy set for the given bucket when it's created.
    pub bucket_ttl: Option<u64>,
    /// The max time to live for cached data, ~ 15 days.
    pub cache_ttl: u64,
    /// Max dimensions for an image
    pub metrics: ImageMetricSettings,
    /// Max request time (in seconds)
    pub request_timeout: u64,
    /// Max connection timeout (in seconds)
    pub connection_timeout: u64,
}

impl StorageSettings {
    /// The default storage settings.
    pub fn default_settings() -> (r: StorageSettings)
        ensures
            r.project_name@ == "topsites-nonprod"@,
            r.bucket_name@ == "moz-topsites-stage-cdn"@,
            r.cdn_host@ == "https://cdn.stage.topsites.nonprod.cloudops.mozgcp.net/"@,
            r.bucket_ttl is None,
            r.cache_ttl == 86400 * 15,
            r.metrics == ImageMetricSettings::default_settings_spec(),
            r.request_timeout == 3,
            r.connection_timeout == 3,
    {
        StorageSettings {
            project_name: copy_str("topsites-nonprod"),
            bucket_name: copy_str("moz-topsites-stage-cdn"),
            cdn_host: copy_str("https://cdn.stage.topsites.nonprod.cloudops.mozgcp.net/"),
            bucket_ttl: None,
            cache_ttl: 86400 * 15,
            metrics: ImageMetricSettings::default_settings(),
            request_timeout: 3,
            connection_timeout: 3,
        }
    }
}

impl ImageMetricSettings {
    /// The default limits.
    pub open spec fn default_settings_spec() -> ImageMetricSettings {
        ImageMetricSettings {
            max_size: 1_600_000,
            max_height: 256,
            max_width: 256,
            min_height: 96,
            min_width: 96,
            symmetric: true,
        }
    }
}

/// Whether a bucket name has the form that cloud storage accepts (and no dots): 3 to
/// 63 characters of `0-9`, `a-z`, `_` and `-`, beginning and ending with a digit or a
/// lower-case letter (the regular expression `^[0-9a-z][0-9a-z_-]{1,61}[0-9a-z]$`).
pub open spec fn valid_bucket_name(name: Seq<char>) -> bool {
    &&& 3 <= name.len() <= 63
    &&& alnum_lower(name[0])
    &&& alnum_lower(name.last())
    &&& forall|i: int| 0 < i < name.len() - 1 ==> alnum_lower(#[trigger] name[i]) || name[i] == '_' || name[i] == '-'
}

/// A digit or a lower-case ASCII letter.
pub open spec fn alnum_lower(c: char) -> bool {
    ('0' <= c && c <= '9') || ('a' <= c && c <= 'z')
}

/// `regex::Regex::is_match` with the pattern `^[0-9a-z][0-9a-z_-]{1,61}[0-9a-z]$`.
/// Believed: it matches exactly the names of `valid_bucket_name`, which is what that
/// pattern denotes.
#[verifier::external_body]
fn bucket_pattern_matches(name: &str) -> (r: bool)
    ensures
        r == valid_bucket_name(name@),
{
    regex::Regex::new("^[0-9a-z][0-9a-z_-]{1,61}[0-9a-z]$").map(|re| re.is_match(name)).unwrap_or(false)
}

/// Whether a bucket name is valid (see `valid_bucket_name`).
pub fn bucket_name_is_valid(name: &str) -> (r: bool)
    ensures
        r == valid_bucket_name(name@),
{
    bucket_pattern_matches(name)
}

/// A text member that takes the default where it is missing.
pub open spec fn text_member(m: Seq<(String, JsonValue)>, key: Seq<char>, default: Seq<char>) -> Option<Seq<char>> {
    match obj_get(m, key) {
        None => Some(default),
        Some(JsonValue::Str(s)) => Some(s@),
        Some(_) => None,
    }
}

/// A number member that takes the default where it is missing.
pub open spec fn number_member(m: Seq<(String, JsonValue)>, key: Seq<char>, default: u64) -> Option<u64> {
    match obj_get(m, key) {
        None => Some(default),
        Some(JsonValue::Number(Some(n), _)) => Some(n),
        Some(_) => None,
    }
}

/// A boolean member that takes the default where it is missing.
pub open spec fn bool_member(m: Seq<(String, JsonValue)>, key: Seq<char>, default: bool) -> Option<bool> {
    match obj_get(m, key) {
        None => Some(default),
        Some(JsonValue::Bool(b)) => Some(b),
        Some(_) => None,
    }
}

/// The image limits of a JSON object, each missing member taking the default.
pub open spec fn metric_settings_json(v: JsonValue) -> Option<ImageMetricSettings> {
    match v {
        JsonValue::Object(m) => {
            let d = ImageMetricSettings::default_settings_spec();
            match (
                number_member(m@, "max_size"@, d.max_size),
                number_member(m@, "max_height"@, d.max_height),
                number_member(m@, "max_width"@, d.max_width),
                number_member(m@, "min_height"@, d.min_height),
                number_member(m@, "min_width"@, d.min_width),
                bool_member(m@, "symmetric"@, d.symmetric),
            ) {
                (Some(a), Some(b), Some(c), Some(e), Some(f), Some(g)) => Some(
                    ImageMetricSettings {
                        max_size: a,
                        max_height: b,
                        max_width: c,
                        min_height: e,
                        min_width: f,
                        symmetric: g,
                    },
                ),
                _ => None,
            }
        },
        _ => None,
    }
}

/// The storage settings as values.
pub struct StorageView {
    pub project_name: Seq<char>,
    pub bucket_name: Seq<char>,
    pub cdn_host: Seq<char>,
    pub bucket_ttl: Option<u64>,
    pub cache_ttl: u64,
    pub metrics: ImageMetricSettings,
    pub request_timeout: u64,
    pub connection_timeout: u64,
}

impl View for StorageSettings {
    type V = StorageView;

    open spec fn view(&self) -> StorageView {
        StorageView {
            project_name: self.project_name@,
            bucket_name: self.bucket_name@,
            cdn_host: self.cdn_host@,
            bucket_ttl: self.bucket_ttl,
            cache_ttl: self.cache_ttl,
            metrics: self.metrics,
            request_timeout: self.request_timeout,
            connection_timeout: self.connection_timeout,
        }
    }
}

/// The optional bucket lifetime member: missing or `null` is none.
pub open spec fn bucket_ttl_member(m: Seq<(String, JsonValue)>) -> Option<Option<u64>> {
    match obj_get(m, "bucket_ttl"@) {
        None => Some(None),
        Some(JsonValue::Null) => Some(None),
        Some(JsonValue::Number(Some(n), _)) => Some(Some(n)),
        Some(_) => None,
    }
}

/// The image limits member: missing is the default.
pub open spec fn metrics_member(m: Seq<(String, JsonValue)>) -> Option<ImageMetricSettings> {
    match obj_get(m, "metrics"@) {
        None => Some(ImageMetricSettings::default_settings_spec()),
        Some(v) => metric_settings_json(v),
    }
}

/// The storage settings of a JSON object, each missing member taking the default.
pub open spec fn storage_json(v: JsonValue) -> Option<StorageView> {
    match v {
        JsonValue::Object(m) => match (
            text_member(m@, "project_name"@, "topsites-nonprod"@),
            text_member(m@, "bucket_name"@, "moz-topsites-stage-cdn"@),
            text_member(m@, "cdn_host"@, "https://cdn.stage.topsites.nonprod.cloudops.mozgcp.net/"@),
            bucket_ttl_member(m@),
            number_member(m@, "cache_ttl"@, 1296000u64),
            metrics_member(m@),
            number_member(m@, "request_timeout"@, 3),
            number_member(m@, "connection_timeout"@, 3),
        ) {
            (Some(a), Some(b), Some(c), Some(d), Some(e), Some(f), Some(g), Some(h)) => Some(
                StorageView {
                    project_name: a,
                    bucket_name: b,
                    cdn_host: c,
                    bucket_ttl: d,
                    cache_ttl: e,
                    metrics: f,
                    request_timeout: g,
                    connection_timeout: h,
                },
            ),
            _ => None,
        },
        _ => None,
    }
}

/// The default storage settings as values.
pub open spec fn default_storage() -> StorageView {
    StorageView {
        project_name: "topsites-nonprod"@,
        bucket_name: "moz-topsites-stage-cdn"@,
        cdn_host: "https://cdn.stage.topsites.nonprod.cloudops.mozgcp.net/"@,
        bucket_ttl: None,
        cache_ttl: 1296000u64,
        metrics: ImageMetricSettings::default_settings_spec(),
        request_timeout: 3,
        connection_timeout: 3,
    }
}

/// The storage settings that a settings text gives: the defaults where it is empty,
/// else its JSON, where it parses and names a valid bucket.
pub open spec fn storage_from_text(text: Seq<char>) -> Option<StorageView> {
    if text.len() == 0 {
        Some(default_storage())
    } else {
        match serde_json_from_str(text) {
            Ok(v) => match storage_json(v) {
                Some(s) => if valid_bucket_name(s.bucket_name) {
                    Some(s)
                } else {
                    None
                },
                None => None,
            },
            Err(_) => None,
        }
    }
}

fn text_field(m: &Vec<(String, JsonValue)>, key: &str, default: &str) -> (r: Option<String>)
    ensures
        match r {
            Some(s) => text_member(m@, key@, default@) == Some(s@),
            None => text_member(m@, key@, default@) is None,
        },
{
    match member_index(m, key) {
        None => Some(copy_str(default)),
        Some(i) => match &m[i].1 {
            JsonValue::Str(s) => Some(s.clone()),
            _ => None,
        },
    }
}

fn number_field(m: &Vec<(String, JsonValue)>, key: &str, default: u64) -> (r: Option<u64>)
    ensures
        r == number_member(m@, key@, default),
{
    match member_index(m, key) {
        None => Some(default),
        Some(i) => match &m[i].1 {
            JsonValue::Number(Some(n), _) => Some(*n),
            _ => None,
        },
    }
}

fn bool_field(m: &Vec<(String, JsonValue)>, key: &str, default: bool) -> (r: Option<bool>)
    ensures
        r == bool_member(m@, key@, default),
{
    match member_index(m, key) {
        None => Some(default),
        Some(i) => match &m[i].1 {
            JsonValue::Bool(b) => Some(*b),
            _ => None,
        },
    }
}

impl ImageMetricSettings {
    /// The image limits of a JSON document (see `metric_settings_json`).
    pub fn from_json_value(v: &JsonValue) -> (r: Option<ImageMetricSettings>)
        ensures
            r == metric_settings_json(*v),
    {
        proof {
            reveal_strlit("max_size");
            reveal_strlit("max_height");
            reveal_strlit("max_width");
            reveal_strlit("min_height");
            reveal_strlit("min_width");
            reveal_strlit("symmetric");
        }
        let m = match v {
            JsonValue::Object(m) => m,
            _ => {
                return None;
            },
        };
        let d = ImageMetricSettings::default_settings();
        let a = number_field(m, "max_size", d.max_size);
        let b = number_field(m, "max_height", d.max_height);
        let c = number_field(m, "max_width", d.max_width);
        let e = number_field(m, "min_height", d.min_height);
        let f = number_field(m, "min_width", d.min_width);
        let g = bool_field(m, "symmetric", d.symmetric);
        match (a, b, c, e, f, g) {
            (Some(a), Some(b), Some(c), Some(e), Some(f), Some(g)) => Some(
                ImageMetricSettings { max_size: a, max_height: b, max_width: c, min_height: e, min_width: f, symmetric: g },
            ),
            _ => None,
        }
    }
}

impl StorageSettings {
    /// The storage settings of a JSON document (see `storage_json`).
    pub fn from_json_value(v: &JsonValue) -> (r: Option<StorageSettings>)
        ensures
            match r {
                Some(s) => storage_json(*v) == Some(s@),
                None => storage_json(*v) is None,
            },
    {
        proof {
            reveal_strlit("project_name");
            reveal_strlit("bucket_name");
            reveal_strlit("cdn_host");
            reveal_strlit("bucket_ttl");
            reveal_strlit("cache_ttl");
            reveal_strlit("metrics");
            reveal_strlit("request_timeout");
            reveal_strlit("connection_timeout");
        }
        let m = match v {
            JsonValue::Object(m) => m,
            _ => {
                return None;
            },
        };
        let project_name = text_field(m, "project_name", "topsites-nonprod");
        let bucket_name = text_field(m, "bucket_name", "moz-topsites-stage-cdn");
        let cdn_host = text_field(m, "cdn_host", "https://cdn.stage.topsites.nonprod.cloudops.mozgcp.net/");
        let bucket_ttl = match member_index(m, "bucket_ttl") {
            None => Some(None),
            Some(i) => match &m[i].1 {
                JsonValue::Null => Some(None),
                JsonValue::Number(Some(n), _) => Some(Some(*n)),
                _ => None,
            },
        };
        let cache_ttl = number_field(m, "cache_ttl", 86400 * 15);
        let metrics = match member_index(m, "metrics") {
            None => Some(ImageMetricSettings::default_settings()),
            Some(i) => ImageMetricSettings::from_json_value(&m[i].1),
        };
        let request_timeout = number_field(m, "request_timeout", 3);
        let connection_timeout = number_field(m, "connection_timeout", 3);
        match (project_name, bucket_name, cdn_host, bucket_ttl, cache_ttl, metrics, request_timeout, connection_timeout) {
            (Some(a), Some(b), Some(c), Some(d), Some(e), Some(f), Some(g), Some(h)) => Some(
                StorageSettings {
                    project_name: a,
                    bucket_name: b,
                    cdn_host: c,
                    bucket_ttl: d,
                    cache_ttl: e,
                    metrics: f,
                    request_timeout: g,
                    connection_timeout: h,
                },
            ),
            _ => None,
        }
    }

    /// The storage settings that the service settings give: the defaults where
    /// `storage` is empty, else its JSON (see `storage_from_text`). Fails where the
    /// JSON does not parse or names an invalid bucket.
    pub fn from_settings(settings: &Settings) -> (r: Result<StorageSettings, ConfigError>)
        ensures
            match r {
                Ok(s) => storage_from_text(settings.storage@) == Some(s@),
                Err(_) => storage_from_text(settings.storage@) is None,
            },
    {
        if settings.storage.as_str().is_empty() {
            return Ok(StorageSettings::default_settings());
        }
        let v = match parse_json(settings.storage.as_str()) {
            Ok(v) => v,
            Err(m) => {
                return Err(ConfigError::Message(crate::text::concat("Invalid storage settings: ", m.as_str())));
            },
        };
        let s = match StorageSettings::from_json_value(&v) {
            Some(s) => s,
            None => {
                return Err(ConfigError::Message(copy_str("Invalid storage settings")));
            },
        };
        if !bucket_name_is_valid(s.bucket_name.as_str()) {
            return Err(ConfigError::Message(crate::text::concat("Invalid storage settings: invalid bucket name ", s.bucket_name.as_str())));
        }
        Ok(s)
    }

    /// Whether images are to be stored at all: neither the bucket nor the project
    /// name is empty or `none` (in any case).
    pub fn bucket_configured(&self) -> (r: bool)
        ensures
            r == !(unicode_lowercase(self.bucket_name@) == ""@ || unicode_lowercase(self.bucket_name@) == "none"@
                || unicode_lowercase(self.project_name@) == ""@ || unicode_lowercase(self.project_name@) == "none"@),
    {
        let b = to_lowercase(self.bucket_name.as_str());
        let p = to_lowercase(self.project_name.as_str());
        !(str_eq(b.as_str(), "") || str_eq(b.as_str(), "none") || str_eq(p.as_str(), "") || str_eq(p.as_str(), "none"))
    }
}

/// The dimensions and size of an image.
#[derive(Clone, Copy, Debug, PartialEq, Eq, Structural)]
pub struct ImageMetrics {
    pub width: u32,
    pub height: u32,
    pub size: usize,
}

/// The image formats that can be measured.
#[derive(Clone, Copy, Debug, PartialEq, Eq, Structural)]
pub enum ImageFormat {
    Jpeg,
    Png,
}

/// The format of an image by its (lower-cased) content type, where it can be measured.
pub open spec fn format_of(content_type: Seq<char>) -> Option<ImageFormat> {
    if content_type == "image/jpg"@ || content_type == "image/jpeg"@ {
        Some(ImageFormat::Jpeg)
    } else if content_type == "image/png"@ {
        Some(ImageFormat::Png)
    } else {
        None
    }
}

impl ImageFormat {
    /// The usual file extension of the format (the first one that the `image` crate
    /// lists for it).
    pub open spec fn extension_spec(self) -> Seq<char> {
        match self {
            ImageFormat::Jpeg => "jpg"@,
            ImageFormat::Png => "png"@,
        }
    }

    /// The usual file extension of the format.
    pub fn extension(self) -> (r: &'static str)
        ensures
            r@ == self.extension_spec(),
    {
        proof {
            reveal_strlit("jpg");
            reveal_strlit("png");
        }
        match self {
            ImageFormat::Jpeg => "jpg",
            ImageFormat::Png => "png",
        }
    }
}

/// The debug text of image metrics, e.g. `ImageMetrics { width: 96, height: 96, size: 27648 }`.
pub open spec fn metrics_debug(width: u32, height: u32, size: int) -> Seq<char> {
    "ImageMetrics { width: "@ + decimal(width as nat) + ", height: "@ + decimal(height as nat) + ", size: "@
        + decimal(size as nat) + " }"@
}

/// The debug text of image metrics (see `metrics_debug`).
pub fn metrics_text(m: &ImageMetrics) -> (r: String)
    ensures
        r@ == metrics_debug(m.width, m.height, m.size as int),
{
    let mut r = String::from_str("ImageMetrics { width: ");
    r.append(decimal_string(m.width as u64).as_str());
    r.append(", height: ");
    r.append(decimal_string(m.height as u64).as_str());
    r.append(", size: ");
    r.append(decimal_string(m.size as u64).as_str());
    r.append(" }");
    r
}

/// A name for what the `image` crate makes of image bytes in a format: the width and
/// height of the decoded image, or none where it does not decode.
pub uninterp spec fn image_decoded(bytes: Seq<u8>, format: ImageFormat) -> Option<(u32, u32)>;

/// `image::ImageReader::decode` (with the format set) and `DynamicImage::to_rgb16`:
/// the width, height and number of 16-bit samples of the image. Believed: the
/// dimensions are `image_decoded` of the bytes and format, and there are three samples
/// (red, green, blue) per pixel; the decoder's message is returned on failure.
#[verifier::external_body]
fn decode_image(bytes: &[u8], format: ImageFormat) -> (r: Result<ImageMetrics, String>)
    ensures
        match r {
            Ok(m) => image_decoded(bytes@, format) == Some((m.width, m.height)) && m.size == 3 * (m.width as int)
                * (m.height as int),
            Err(_) => image_decoded(bytes@, format) is None,
        },
{
    let fmt = match format {
        ImageFormat::Jpeg => image::ImageFormat::Jpeg,
        ImageFormat::Png => image::ImageFormat::Png,
    };
    match image::ImageReader::with_format(std::io::Cursor::new(bytes), fmt).decode() {
        Ok(img) => {
            let rgb = img.to_rgb16();
            Ok(ImageMetrics { width: rgb.width(), height: rgb.height(), size: rgb.len() })
        },
        Err(e) => Err(e.to_string()),
    }
}

/// The metrics of an image, or the `BadImage` reason: SVG images count as 128 pixels
/// square; JPEG and PNG images are decoded; other content types are refused.
pub open spec fn measured(bytes: Seq<u8>, content_type: Seq<char>) -> Result<(u32, u32, int), Seq<char>> {
    let ct = unicode_lowercase(content_type);
    if ct == "image/svg"@ {
        Ok((128, 128, bytes.len() as int))
    } else {
        match format_of(ct) {
            None => Err("Invalid image format"@),
            Some(f) => match image_decoded(bytes, f) {
                None => Err("Image unreadable"@),
                Some((w, h)) => Ok((w, h, 3 * (w as int) * (h as int))),
            },
        }
    }
}

/// Whether image metrics pass the limits: square where asked, each dimension within
/// its bounds, and the size at most the maximum.
pub open spec fn within_limits(s: ImageMetricSettings, w: u32, h: u32, size: int) -> bool {
    &&& !(s.symmetric && w != h)
    &&& s.min_width <= w <= s.max_width
    &&& s.min_height <= h <= s.max_height
    &&& size <= s.max_size
}

/// An image passes the limits exactly when its width and height each lie between
/// their minimum and maximum (both included), its size is at most the maximum, and it
/// is square where squareness is asked for.
pub proof fn lemma_limits_bound_both_sides(s: ImageMetricSettings, w: u32, h: u32, size: int)
    ensures
        within_limits(s, w, h, size) <==> (s.min_width <= w && w <= s.max_width && s.min_height <= h && h
            <= s.max_height && size <= s.max_size && (s.symmetric ==> w == h)),
{
}

/// The `BadImage` reason of metrics that fail the limits.
pub open spec fn limit_failure(s: ImageMetricSettings, w: u32, h: u32) -> Seq<char> {
    if s.symmetric && w != h {
        "Non symmetric image"@
    } else {
        "Invalid image size"@
    }
}

/// Check an image against the limits: its metrics, or a `BadImage` error (see
/// `measured` and `within_limits`). The error's extra data name the URL, and the
/// content type where it is not an image format, the decoder's message (under `error`)
/// and the format's extension where the image does not decode, and the metrics' debug
/// text where they fail the limits.
pub fn validate(settings: &ImageMetricSettings, uri: &str, image: &[u8], content_type: &str) -> (r: HandlerResult<
    ImageMetrics,
>)
    ensures
        match measured(image@, content_type@) {
            Err(reason) => r matches Err(e) && e.kind@ == KindView::BadImage(reason),
            Ok((w, h, size)) => if within_limits(*settings, w, h, size) {
                r matches Ok(m) && m.width == w && m.height == h && m.size == size
            } else {
                r matches Err(e) && e.kind@ == KindView::BadImage(limit_failure(*settings, w, h))
                    && e.tags.extra_map() == with_entry(
                    with_entry(Map::empty(), "metrics"@, metrics_debug(w, h, size)),
                    "url"@,
                    uri@,
                )
            },
        },
        r matches Ok(m) ==> settings.min_width <= m.width <= settings.max_width && settings.min_height <= m.height
            <= settings.max_height && m.size <= settings.max_size && (settings.symmetric ==> m.width == m.height),
        r matches Err(e) ==> e.tags.tag_map() == Map::<Seq<char>, Seq<char>>::empty()
            && e.tags.metric_map() == Map::<Seq<char>, Seq<char>>::empty(),
        r matches Err(e) ==> {
            &&& e.kind@ == KindView::BadImage("Invalid image format"@) ==> e.tags.extra_map() == with_entry(
                with_entry(Map::empty(), "url"@, uri@),
                "format"@,
                content_type@,
            )
            &&& e.kind@ == KindView::BadImage("Image unreadable"@) ==> (format_of(unicode_lowercase(content_type@))
                matches Some(f) && e.tags.extra_map().remove("error"@) == with_entry(
                with_entry(Map::empty(), "url"@, uri@),
                "format"@,
                f.extension_spec(),
            ))
        },
{
    proof {
        reveal_strlit("image/svg");
        reveal_strlit("image/jpg");
        reveal_strlit("image/jpeg");
        reveal_strlit("image/png");
        reveal_strlit("Invalid image format");
        reveal_strlit("Image unreadable");
        reveal_strlit("Non symmetric image");
        reveal_strlit("Invalid image size");
        reveal_strlit("url");
        reveal_strlit("error");
        reveal_strlit("format");
        reveal_strlit("metrics");
        // The four reasons differ in length, hence in text.
        assert("Invalid image format"@.len() == 20 && "Image unreadable"@.len() == 16);
        assert("Non symmetric image"@.len() == 19 && "Invalid image size"@.len() == 18);
    }
    let ct = to_lowercase(content_type);
    let metrics = if str_eq(ct.as_str(), "image/svg") {
        ImageMetrics { width: 128, height: 128, size: image.len() }
    } else {
        let fmt = if str_eq(ct.as_str(), "image/jpg") || str_eq(ct.as_str(), "image/jpeg") {
            ImageFormat::Jpeg
        } else if str_eq(ct.as_str(), "image/png") {
            ImageFormat::Png
        } else {
            let mut tags = Tags::new();
            tags.add_extra("url", uri);
            tags.add_extra("format", content_type);
            return Err(HandlerError { kind: HandlerErrorKind::BadImage("Invalid image format"), tags: Box::new(tags) });
        };
        assert(format_of(ct@) == Some(fmt));
        match decode_image(image, fmt) {
            Ok(m) => m,
            Err(msg) => {
                let mut tags = Tags::new();
                tags.add_extra("error", msg.as_str());
                tags.add_extra("url", uri);
                tags.add_extra("format", fmt.extension());
                assert("url"@.len() == 3 && "error"@.len() == 5 && "format"@.len() == 6);
                assert(tags.extra_map().remove("error"@) =~= with_entry(
                    with_entry(Map::empty(), "url"@, uri@),
                    "format"@,
                    fmt.extension_spec(),
                ));
                return Err(HandlerError { kind: HandlerErrorKind::BadImage("Image unreadable"), tags: Box::new(tags) });
            },
        }
    };
    if settings.symmetric && metrics.width != metrics.height {
        let mut tags = Tags::new();
        tags.add_extra("metrics", metrics_text(&metrics).as_str());
        tags.add_extra("url", uri);
        return Err(HandlerError { kind: HandlerErrorKind::BadImage("Non symmetric image"), tags: Box::new(tags) });
    }
    if !(settings.min_width <= metrics.width as u64 && metrics.width as u64 <= settings.max_width)
        || !(settings.min_height <= metrics.height as u64 && metrics.height as u64 <= settings.max_height)
        || (metrics.size as u64) > settings.max_size {
        let mut tags = Tags::new();
        tags.add_extra("metrics", metrics_text(&metrics).as_str());
        tags.add_extra("url", uri);
        return Err(HandlerError { kind: HandlerErrorKind::BadImage("Invalid image size"), tags: Box::new(tags) });
    }
    Ok(metrics)
}


/// The name an image is stored under: its content hash, its length and an extension
/// by content type.
pub open spec fn image_path(hash: Seq<char>, len: nat, content_type: Seq<char>) -> Seq<char> {
    hash + "."@ + decimal(len) + "."@ + if content_type == "image/jpg"@ || content_type == "image/jpeg"@ {
        "jpg"@
    } else if content_type == "image/png"@ {
        "png"@
    } else if content_type == "image/svg"@ {
        "svg"@
    } else {
        ".oct"@
    }
}

/// Content types of one image format name the stored image alike: the name is the
/// hash, the length and the format's usual extension (`jpg` for both `image/jpg` and
/// `image/jpeg`, `png` for `image/png`).
pub proof fn lemma_image_path_by_format(hash: Seq<char>, len: nat, ct1: Seq<char>, ct2: Seq<char>)
    ensures
        format_of(ct1) matches Some(f) ==> image_path(hash, len, ct1) == hash + "."@ + decimal(len) + "."@
            + f.extension_spec(),
        format_of(ct1) is Some && format_of(ct1) == format_of(ct2) ==> image_path(hash, len, ct1) == image_path(
            hash,
            len,
            ct2,
        ),
{
    reveal_strlit("image/jpg");
    reveal_strlit("image/jpeg");
    reveal_strlit("image/png");
    reveal_strlit("image/svg");
    assert("image/png"@ != "image/svg"@) by {
        assert("image/png"@[6] != "image/svg"@[6]);
    }
}

/// A hash of the image bytes: their BLAKE3 digest in URL-safe Base64 without padding.
pub fn as_hash(source: &[u8]) -> (r: String)
    ensures
        r@ == base64_no_pad(blake3_digest(source@), Alphabet::UrlSafe),
{
    let digest = blake3_hash(source);
    base64_encode(digest.as_slice(), Alphabet::UrlSafe)
}

/// The name to store an image under (see `image_path`).
pub fn image_path_of(image: &[u8], content_type: &str) -> (r: String)
    ensures
        r@ == image_path(base64_no_pad(blake3_digest(image@), Alphabet::UrlSafe), image@.len(), content_type@),
{
    proof {
        reveal_strlit("image/jpg");
        reveal_strlit("image/jpeg");
        reveal_strlit("image/png");
        reveal_strlit("image/svg");
    }
    let mut out = as_hash(image);
    out.append(".");
    out.append(decimal_string(image.len() as u64).as_str());
    out.append(".");
    if str_eq(content_type, "image/jpg") || str_eq(content_type, "image/jpeg") {
        out.append("jpg");
    } else if str_eq(content_type, "image/png") {
        out.append("png");
    } else if str_eq(content_type, "image/svg") {
        out.append("svg");
    } else {
        out.append(".oct");
    }
    out
}

/// Where a stored image is served from: the CDN host, a slash, its name.
pub open spec fn cdn_url(cdn_host: Seq<char>, path: Seq<char>) -> Seq<char> {
    cdn_host + "/"@ + path
}

/// The furthest time (seconds from the epoch, either way) that stored images deal in.
pub const TIME_LIMIT: i64 = 4_000_000_000_000;

/// A stored image: where the CDN serves it, its metrics, and until when (seconds
/// since the epoch) it is trusted without checking the bucket again.
#[derive(Debug)]
pub struct StoredImage {
    pub url: String,
    pub image_metrics: ImageMetrics,
    pub expiry: i64,
}

impl StoredImage {
    /// Whether the image should be checked against the bucket again at `now`.
    pub fn expired_at(&self, now: i64) -> (r: bool)
        ensures
            r == (self.expiry <= now),
    {
        self.expiry <= now
    }
}

/// When a stored image expires: `tiles_ttl` from now, or, where the bucket keeps
/// objects for `bucket_ttl`, when the object expires if that is earlier.
pub open spec fn image_expiry(tiles_ttl: u32, bucket_ttl: Option<u64>, time_created: i64, now: i64) -> int {
    let by_ttl = now + tiles_ttl;
    match bucket_ttl {
        Some(b) => if time_created + b < by_ttl {
            time_created + b
        } else {
            by_ttl
        },
        None => by_ttl,
    }
}

/// The CDN URL of a stored image, where `http::Uri` accepts it; else an `Internal`
/// error naming the parser's error.
pub fn image_url(url: String) -> (r: HandlerResult<String>)
    ensures
        match http_uri_error(url@) {
            None => r matches Ok(u) && u == url,
            Some(m) => r matches Err(e) && e.kind@ == KindView::Internal("Invalid URL: "@ + m),
        },
{
    match uri_error(url.as_str()) {
        None => Ok(url),
        Some(m) => Err(HandlerError::internal(concat("Invalid URL: ", m.as_str()).as_str())),
    }
}

/// A stored image record, created at `time_created` and recorded at `now`.
pub fn new_image(
    tiles_ttl: u32,
    bucket_ttl: Option<u64>,
    url: String,
    image_metrics: ImageMetrics,
    time_created: i64,
    now: i64,
) -> (r: StoredImage)
    requires
        -TIME_LIMIT <= now <= TIME_LIMIT,
        -TIME_LIMIT <= time_created <= TIME_LIMIT,
        bucket_ttl matches Some(b) ==> b <= TIME_LIMIT,
    ensures
        r.url == url,
        r.image_metrics == image_metrics,
        r.expiry == image_expiry(tiles_ttl, bucket_ttl, time_created, now),
{
    let mut expiry: i64 = now + tiles_ttl as i64;
    if let Some(b) = bucket_ttl {
        let by_bucket = time_created + b as i64;
        if by_bucket < expiry {
            expiry = by_bucket;
        }
    }
    StoredImage { url, image_metrics, expiry }
}

/// Whether a cloud storage error body reports `412 Precondition Failed` (the object
/// already exists): `error.code` is 412.
pub open spec fn precondition_failed(body: JsonValue) -> bool {
    match body {
        JsonValue::Object(m) => match obj_get(m@, "error"@) {
            Some(JsonValue::Object(e)) => match obj_get(e@, "code"@) {
                Some(JsonValue::Number(_, Some(c))) => c == 412,
                _ => false,
            },
            _ => false,
        },
        _ => false,
    }
}

/// Read a cloud storage error body: whether it reports that the object already
/// exists, or an `Internal` error (with the parser's message and the quoted body)
/// where it is no JSON.
pub fn already_exists(body: &str) -> (r: HandlerResult<bool>)
    ensures
        match serde_json_from_str(body@) {
            Ok(v) => r == Ok::<bool, HandlerError>(precondition_failed(v)),
            Err(m) => r matches Err(e) && e.kind@ == KindView::Internal(
                "Could not parse cloud_storage::Error::Other: ("@ + m + ") "@ + debug_quoted(body@),
            ),
        },
{
    proof {
        reveal_strlit("error");
        reveal_strlit("code");
    }
    let v = match parse_json(body) {
        Ok(v) => v,
        Err(m) => {
            let mut msg = String::from_str("Could not parse cloud_storage::Error::Other: (");
            msg.append(m.as_str());
            msg.append(") ");
            msg.append(debug_string(body).as_str());
            return Err(HandlerError::internal(msg.as_str()));
        },
    };
    let m = match &v {
        JsonValue::Object(m) => m,
        _ => {
            return Ok(false);
        },
    };
    let e = match member_index(m, "error") {
        Some(i) => match &m[i].1 {
            JsonValue::Object(e) => e,
            _ => {
                return Ok(false);
            },
        },
        None => {
            return Ok(false);
        },
    };
    match member_index(e, "code") {
        Some(i) => match &e[i].1 {
            JsonValue::Number(_, Some(c)) => Ok(*c == 412),
            _ => Ok(false),
        },
        None => Ok(false),
    }
}

/// Where and under which name to upload an image: an `Internal` error where no bucket
/// is defined, else the name (see `image_path`) and its CDN URL.
pub fn upload_target(settings: &StorageSettings, image: &[u8], content_type: &str) -> (r: HandlerResult<
    (String, String),
>)
    ensures
        settings.bucket_name@.len() == 0 ==> (r matches Err(e) && e.kind@ == KindView::Internal(
            "No storage bucket defined"@,
        )),
        settings.bucket_name@.len() > 0 ==> (r matches Ok((p, u)) && p@ == image_path(
            base64_no_pad(blake3_digest(image@), Alphabet::UrlSafe),
            image@.len(),
            content_type@,
        ) && u@ == cdn_url(settings.cdn_host@, p@)),
{
    if settings.bucket_name.as_str().is_empty() {
        return Err(HandlerError::internal("No storage bucket defined"));
    }
    let path = image_path_of(image, content_type);
    let mut url = settings.cdn_host.clone();
    url.append("/");
    url.append(path.as_str());
    Ok((path, url))
}

/// The `Cache-Control` value of an uploaded object: public, for `cache_ttl` seconds.
pub fn object_cache_control(cache_ttl: u64) -> (r: String)
    ensures
        r@ == "public, max-age="@ + decimal(cache_ttl as nat),
{
    let mut out = String::from_str("public, max-age=");
    out.append(decimal_string(cache_ttl).as_str());
    out
}

} // verus!
