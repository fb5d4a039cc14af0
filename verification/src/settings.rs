//! Application settings objects
use vstd::prelude::*;

use crate::text::{concat, copy_str, decimal, decimal_string};

verus! {

/// Configuration settings and options
#[derive(Clone, Debug)]
pub struct Settings {
    /// Enable verbose debugging output (default: false)
    pub debug: bool,
    /// Service port (default: 8000)
    pub port: u16,
    /// Service hostname (default: 127.0.0.1)
    pub host: String,
    /// Enable "human readable" logging messages (default: false)
    pub human_logs: bool,
    /// Metric default label (default: "contile")
    pub statsd_label: String,
    /// Metric reporting host address (default: None)
    pub statsd_host: Option<String>,
    /// Metric reporting host port
    pub statsd_port: u16,
    /// Enable actix "keep alive" period in seconds (default: None)
    pub actix_keep_alive: Option<u64>,
    /// Expire tiles after this many seconds (15 * 60s)
    pub tiles_ttl: u32,
    /// Keep serving stale tiles for this many seconds while the partner fails (3 hours)
    pub tiles_fallback_ttl: u32,
    /// path to MaxMind location database
    pub maxminddb_loc: Option<String>,
    /// Storage settings for the image cache, as JSON
    pub storage: String,
    /// Run in "integration test mode"
    pub test_mode: bool,
    /// path to the test files
    pub test_file_path: String,
    /// Location test header override
    pub location_test_header: Option<String>,
    /// Fallback country (if no country is able to be determined for an IP).
    pub fallback_country: String,
    /// URL to the official documentation
    pub documentation_url: String,
    /// Operational trace header
    pub trace_header: Option<String>,
    /// Adm partner ID (default: "demofeed")
    pub adm_partner_id: Option<String>,
    /// Adm sub1 value (default: "123456789")
    pub adm_sub1: Option<String>,
    /// adm Endpoint URL
    pub adm_endpoint_url: String,
    /// Adm partner ID for mobile devices
    pub adm_mobile_partner_id: Option<String>,
    /// Adm sub1 value for mobile devices
    pub adm_mobile_sub1: Option<String>,
    /// adm Endpoint URL for mobile devices
    pub adm_mobile_endpoint_url: Option<String>,
    /// max number of tiles returned to clients (default: 2)
    pub adm_max_tiles: u8,
    /// number of tiles to query from ADM (default: 10)
    pub adm_query_tile_count: u8,
    /// Timeout requests to the ADM server after this many seconds (default: 5)
    pub adm_timeout: u64,
    /// ADM tile settings (either as JSON or a path to a JSON file)
    pub adm_settings: String,
    /// A JSON list of advertisers to ignore, specified by the Advertiser name.
    pub adm_ignore_advertisers: Option<String>,
    /// a JSON list of advertisers to allow for versions of firefox less than 91.
    pub adm_has_legacy_image: Option<String>,
    /// Filter defaults (hosts, position, ...) as JSON
    pub adm_defaults: Option<String>,
    /// Seconds between checks of the cloud-stored ADM settings
    pub adm_refresh_rate_secs: u64,
    /// Answer 200 (with an empty tile list) instead of 204 where there is nothing to serve
    pub excluded_countries_200: bool,
    /// Send a `Cache-Control` header with tiles
    pub cache_control_header: bool,
    /// Share-of-voice settings (a `gs://` URL, a file path or inline JSON)
    pub sov_source: String,
    /// Seconds between checks of the cloud-stored share-of-voice settings
    pub sov_refresh_rate_secs: u64,
    /// Shared image cache server
    pub redis_server: String,
    /// Obsolete
    pub sub1: Option<String>,
    /// Obsolete
    pub partner_id: Option<String>,
    /// Percentage of overall time for fetch "jitter".
    pub jitter: u8,
}

/// The default service port.
pub const DEFAULT_PORT: u16 = 8000;

impl Settings {
    /// The default settings.
    pub fn default_settings() -> (r: Settings)
        ensures
            r.port == DEFAULT_PORT,
            r.host@ == "127.0.0.1"@,
            r.statsd_label@ == "contile"@,
            r.statsd_port == 8125,
            r.tiles_ttl == 900,
            r.fallback_country@ == "US"@,
            r.adm_max_tiles == 2,
            r.adm_query_tile_count == 10,
            r.adm_timeout == 5,
            r.adm_endpoint_url@ == ""@,
            r.adm_settings@ == ""@,
            r.adm_partner_id matches Some(v) && v@ == "demofeed"@,
            r.adm_sub1 matches Some(v) && v@ == "123456789"@,
            r.adm_mobile_partner_id is None,
            r.adm_mobile_sub1 is None,
            r.adm_mobile_endpoint_url is None,
            r.jitter == 10,
            !r.debug,
            !r.test_mode,
            !r.human_logs,
            r.statsd_host is None,
            r.actix_keep_alive is None,
            r.tiles_fallback_ttl == 10800,
            r.maxminddb_loc is None,
            r.storage@ == ""@,
            r.test_file_path@ == "./tools/test/test_data/"@,
            r.location_test_header is None,
            r.documentation_url@ == "https://developer.mozilla.org/"@,
            r.trace_header matches Some(t) && t@ == "X-Cloud-Trace-Context"@,
            r.adm_ignore_advertisers is None,
            r.adm_has_legacy_image matches Some(l) && l@
                == "[\"adidas\",\"amazon\",\"ebay\",\"etsy\",\"geico\",\"nike\",\"samsung\",\"wix\"]"@,
            r.adm_defaults is None,
            r.adm_refresh_rate_secs == 300,
            !r.excluded_countries_200,
            r.cache_control_header,
            r.sov_source@ == ""@,
            r.sov_refresh_rate_secs == 300,
            r.redis_server@ == "redis://127.0.0.1/"@,
            r.sub1 matches Some(v) && v@ == "demofeed"@,
            r.partner_id matches Some(v) && v@ == "123456789"@,
    {
        Settings {
            debug: false,
            port: DEFAULT_PORT,
            host: copy_str("127.0.0.1"),
            human_logs: false,
            statsd_label: copy_str("contile"),
            statsd_host: None,
            statsd_port: 8125,
            actix_keep_alive: None,
            tiles_ttl: 15 * 60,
            tiles_fallback_ttl: 3 * 60 * 60,
            maxminddb_loc: None,
            storage: copy_str(""),
            test_mode: false,
            test_file_path: copy_str("./tools/test/test_data/"),
            location_test_header: None,
            fallback_country: copy_str("US"),
            documentation_url: copy_str("https://developer.mozilla.org/"),
            trace_header: Some(copy_str("X-Cloud-Trace-Context")),
            adm_endpoint_url: copy_str(""),
            adm_partner_id: Some(copy_str("demofeed")),
            adm_sub1: Some(copy_str("123456789")),
            adm_mobile_partner_id: None,
            adm_mobile_sub1: None,
            adm_mobile_endpoint_url: None,
            adm_max_tiles: 2,
            adm_query_tile_count: 10,
            adm_timeout: 5,
            adm_settings: copy_str(""),
            adm_ignore_advertisers: None,
            adm_has_legacy_image: Some(
                copy_str("[\"adidas\",\"amazon\",\"ebay\",\"etsy\",\"geico\",\"nike\",\"samsung\",\"wix\"]"),
            ),
            adm_defaults: None,
            adm_refresh_rate_secs: 300,
            excluded_countries_200: false,
            cache_control_header: true,
            sov_source: copy_str(""),
            sov_refresh_rate_secs: 300,
            redis_server: copy_str("redis://127.0.0.1/"),
            sub1: Some(copy_str("demofeed")),
            partner_id: Some(copy_str("123456789")),
            jitter: 10,
        }
    }

    /// A simple banner for display of certain settings at startup: `http://<host>:<port>`.
    pub fn banner(&self) -> (r: String)
        ensures
            r@ == "http://"@ + self.host@ + ":"@ + decimal(self.port as nat),
    {
        let a = concat("http://", self.host.as_str());
        let b = concat(a.as_str(), ":");
        let p = decimal_string(self.port as u64);
        concat(b.as_str(), p.as_str())
    }

    /// Check the settings that the service cannot start without: the partner endpoint
    /// must be set.
    pub fn verify_settings(&self) -> (r: Result<(), crate::adm::settings::ConfigError>)
        ensures
            r is Err <==> (self.adm_endpoint_url@.len() == 0 || crate::server::img_storage::storage_from_text(
                self.storage@,
            ) is None),
            self.adm_endpoint_url@.len() == 0 ==> r == Err::<(), crate::adm::settings::ConfigError>(
                crate::adm::settings::ConfigError::Message(r->Err_0->Message_0),
            ) && r->Err_0->Message_0@ == "Missing adm_endpoint_url"@,
    {
        if self.adm_endpoint_url.as_str().is_empty() {
            return Err(crate::adm::settings::ConfigError::Message(copy_str("Missing adm_endpoint_url")));
        }
        match crate::server::img_storage::StorageSettings::from_settings(self) {
            Ok(_) => Ok(()),
            Err(e) => Err(e),
        }
    }

    /// Settings for debugging and test runs: the partner endpoint is the local test
    /// server and debugging is on.
    pub fn apply_test_mode(&mut self)
        ensures
            final(self).adm_endpoint_url@ == "http://localhost:8675/"@,
            final(self).debug,
    {
        self.adm_endpoint_url = copy_str("http://localhost:8675/");
        self.debug = true;
    }
}

/// `ttl` seconds stretched or shrunk by `jitter` percent: `roll` (drawn by the
/// caller from `0..=2*jitter`) picks the percentage, from `100 - jitter` to `100 + jitter`.
pub fn ttl_with_jitter(ttl: u32, jitter: u8, roll: u32) -> (r: u64)
    requires
        jitter <= 100,
        roll <= 2 * (jitter as u32),
    ensures
        r == (ttl as int) * (100 - jitter + roll) / 100,
{
    let pct: u64 = 100 - (jitter as u64) + (roll as u64);
    assert((ttl as int) * (pct as int) <= 4294967295 * 300) by (nonlinear_arith)
        requires
            pct <= 300,
    ;
    (ttl as u64) * pct / 100
}


/// The settings used by tests: the defaults in debug mode, with the partner endpoint
/// the local test server.
pub fn test_settings() -> (r: Settings)
    ensures
        r.debug,
        r.adm_endpoint_url@ == "http://localhost:8675/"@,
        r.port == DEFAULT_PORT,
        r.fallback_country@ == "US"@,
        r.storage@ == ""@,
{
    let mut s = Settings::default_settings();
    s.adm_endpoint_url = copy_str("http://localhost:8675/");
    s.debug = true;
    s
}

} // verus!
