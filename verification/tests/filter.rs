use contile::adm::decode::decode_url_filters;
use contile::adm::filter::{check_url, AdmAdvertiserSettings, AdmFilter};
use contile::adm::settings::{break_hosts, AdmDefaults, AdvertiserUrlFilter};
use contile::adm::tiles::AdmTile;
use contile::json::json_document;
use contile::tags::Tags;
use contile::user_agent::{DeviceInfo, FormFactor, OsFamily};
use contile::web_url::ParsedUrl;

fn url(s: &str) -> ParsedUrl {
    ParsedUrl::parse(s).expect("valid URL")
}

fn labels(parts: &[&str]) -> Vec<String> {
    parts.iter().map(|p| p.to_string()).collect()
}

#[test]
fn check_url_matches() {
    let species = "Click";
    assert!(check_url(url("https://example.com"), species, &vec![labels(&["example", "com"])]).unwrap());
    assert!(check_url(
        url("https://foo.bridge.example.com/?quux=baz"),
        species,
        &vec![labels(&["example", "com"])]
    )
    .unwrap());
}

#[test]
fn check_url_failed() {
    let species = "Click";
    assert!(check_url(url("https://foo.com"), species, &vec![labels(&["example", "com"])]).is_err());
    assert!(check_url(url("https://foo.com"), species, &vec![labels(&["bar", "example", "com"])]).is_err());
    assert!(check_url(url("https://badexample.com"), species, &vec![labels(&["example", "com"])]).is_err());
}

#[test]
fn check_mx_domains() {
    assert!(check_url(
        url("https://foo.co.mx"),
        "Click",
        &vec![labels(&["bar", "co", "mx"]), labels(&["bar", "com"]), labels(&["foo", "co", "uk"])]
    )
    .is_err());
}

fn url_filters(text: &str) -> Vec<AdvertiserUrlFilter> {
    let doc = json_document(text).expect("valid JSON");
    decode_url_filters(&doc).expect("valid filters")
}

fn check(filter: &AdmFilter, settings: &Vec<AdvertiserUrlFilter>, tile: &AdmTile, tags: &mut Tags) -> bool {
    filter.check_advertiser(settings, tile, tags).is_ok()
}

#[test]
fn check_advertiser() {
    let s = r#"{"adm_advertisers":{

            "Acme": {
                "US": [
                {
                    "host": "acme.biz",
                    "paths": [
                        { "value": "/ca/", "matching": "prefix" }
                    ]
                },
                {
                    "host": "black_friday.acme.biz",
                    "paths": [
                        { "value": "/ca/", "matching": "prefix" }
                    ]

                },
                {
                    "host": "acme.biz",
                    "paths": [
                        { "value": "/usa", "matching": "exact" }
                    ]
                }
                ]
            }
        }
    }"#;
    let advertiser_filters = AdmAdvertiserSettings::from_download(s).ok().expect("valid settings");
    let settings_doc = AdmAdvertiserSettings::from_download(s).ok().expect("valid settings");
    let mut defaults = AdmDefaults::empty();
    defaults.click_hosts = vec![break_hosts("example.com".to_owned())];
    defaults.image_hosts = vec![break_hosts("cdn.example.org".to_owned())];
    defaults.impression_hosts = vec![break_hosts("example.net".to_owned())];
    let mut filter = AdmFilter::default();
    filter.advertiser_filters = advertiser_filters;
    filter.defaults = defaults;
    let settings = settings_doc.adm_advertisers.get("acme").expect("acme").get("US").expect("US");
    let mut tags = Tags::new();

    let mut tile = AdmTile {
        id: 0,
        name: "test".to_owned(),
        advertiser_url: "https://acme.biz/ca/foobar".to_owned(),
        click_url: "https://example.com/foo".to_owned(),
        image_url: "https://example.org/i/cat.jpg".to_owned(),
        impression_url: "https://example.net".to_owned(),
        position: None,
    };

    // Good, contains the right lede and path
    assert!(check(&filter, settings, &tile, &mut tags));
    // Good, missing lede
    tile.advertiser_url = "https://acme.biz/ca/".to_owned();
    assert!(check(&filter, settings, &tile, &mut tags));
    // Good, missing last slash
    tile.advertiser_url = "https://acme.biz/ca".to_owned();
    assert!(check(&filter, settings, &tile, &mut tags));
    // Bad, path isn't correct.
    tile.advertiser_url = "https://acme.biz/calzone".to_owned();
    assert!(!check(&filter, settings, &tile, &mut tags));
    // Bad, wrong path
    tile.advertiser_url = "https://acme.biz/fr/".to_owned();
    assert!(!check(&filter, settings, &tile, &mut tags));
    // Good, extra element in host
    tile.advertiser_url = "https://black_friday.acme.biz/ca/".to_owned();
    assert!(check(&filter, settings, &tile, &mut tags));
    // Good, extra matching
    tile.advertiser_url = "https://acme.biz/usa".to_owned();
    assert!(check(&filter, settings, &tile, &mut tags));
    // Bad, path doesn't match exactly
    tile.advertiser_url = "https://acme.biz/usa/".to_owned();
    assert!(!check(&filter, settings, &tile, &mut tags));

    // "Traditional host. "
    let s = r#"[
                {
                    "host": "acme.biz",
                    "paths": [
                        { "value": "/ca/", "matching": "prefix" }
                    ]
                },
                {
                    "host": "www.acme.co",
                    "paths": [
                        { "value": "/foo.bar/", "matching": "prefix" }
                    ]

                },
                {
                    "host": "acme.biz",
                    "paths": [
                        { "value": "/", "matching": "exact" }
                    ]
                }
            ]"#;
    let settings = url_filters(s);
    // Good, matches hosts
    tile.advertiser_url = "https://acme.biz/ca/".to_owned();
    assert!(check(&filter, &settings, &tile, &mut tags));
    tile.advertiser_url = "https://www.acme.co/foo.bar/".to_owned();
    assert!(check(&filter, &settings, &tile, &mut tags));
    tile.advertiser_url = "https://acme.biz/foo.bar/".to_owned();
    assert!(!check(&filter, &settings, &tile, &mut tags));
    // Bad, invalid host.
    tile.advertiser_url = "https://acme.biz.uk/ca/".to_owned();
    assert!(!check(&filter, &settings, &tile, &mut tags));
    // Bad, host in path.
    tile.advertiser_url = "https://example.com/acme.biz/ca/".to_owned();
    assert!(!check(&filter, &settings, &tile, &mut tags));
    // Good, dotted path
    tile.advertiser_url = "https://www.acme.co/foo.bar/".to_owned();
    assert!(check(&filter, &settings, &tile, &mut tags));
    // Bad, invalid scheme
    tile.advertiser_url = "http://www.acme.co/foo.bar/".to_owned();
    assert!(!check(&filter, &settings, &tile, &mut tags));
    // Good, matches exact host and path
    tile.advertiser_url = "https://acme.biz/".to_owned();
    assert!(check(&filter, &settings, &tile, &mut tags));

    // replicate settings breaking hosts into component bits.
    let host_bits: Vec<String> = "example.org".split('.').map(String::from).collect();
    let mut defaults = AdmDefaults::empty();
    defaults.image_hosts = vec![host_bits];
    tile.image_url = "https://example.biz".to_owned();
    assert!(filter.check_image_hosts(&defaults, &tile, &mut tags).is_err());
    tile.image_url = "https://example.org".to_owned();
    assert!(filter.check_image_hosts(&defaults, &tile, &mut tags).is_ok());
    // check that sub-hosts are not rejected.
    tile.image_url = "https://cdn.example.org".to_owned();
    assert!(filter.check_image_hosts(&defaults, &tile, &mut tags).is_ok());
}

fn acme_filter() -> AdmFilter {
    let s = r#"{"adm_advertisers":{"Acme": {"US": [{"host": "acme.biz", "paths": [{"value": "/ca/", "matching": "prefix"}]}]}}}"#;
    let mut filter = AdmFilter::default();
    filter.update(AdmAdvertiserSettings::from_download(s).ok().expect("valid settings"), 1000);
    filter.defaults.click_hosts = vec![break_hosts("example.com".to_owned())];
    filter.defaults.impression_hosts = vec![break_hosts("example.net".to_owned())];
    filter
}

fn acme_tile() -> AdmTile {
    AdmTile {
        id: 7,
        name: "Acme".to_owned(),
        advertiser_url: "https://acme.biz/ca/shop".to_owned(),
        click_url: "https://example.com/c?ci=1&ctag=2&key=3&version=4".to_owned(),
        image_url: "https://example.org/i/cat.jpg".to_owned(),
        impression_url: "https://example.net/i?id=1".to_owned(),
        position: Some(1),
    }
}

fn desktop(version: u32) -> DeviceInfo {
    DeviceInfo { form_factor: FormFactor::Desktop, os_family: OsFamily::Windows, ff_version: version }
}

#[test]
fn update_lowercases_names_and_collects_regions() {
    let filter = acme_filter();
    assert!(filter.advertiser_filters.adm_advertisers.contains_key("acme"));
    assert!(!filter.advertiser_filters.adm_advertisers.contains_key("Acme"));
    assert!(filter.all_include_regions.contains("US"));
    assert!(!filter.all_include_regions.contains("CA"));
    assert_eq!(filter.last_updated, Some(1000));
}

#[test]
fn filter_accepts_a_good_tile() {
    let filter = acme_filter();
    let mut tags = Tags::new();
    let outcome = filter.filter_and_process(acme_tile(), "US", &desktop(100), &mut tags);
    let tile = outcome.tile.expect("accepted");
    assert_eq!(tile.id, 7);
    assert_eq!(tile.url, "https://acme.biz/ca/shop");
    assert_eq!(tile.position, Some(1));
    assert!(tile.image_size.is_none());
    assert!(outcome.metric.is_none());
}

#[test]
fn filter_rejects_other_countries_and_legacy_devices() {
    let filter = acme_filter();
    let mut tags = Tags::new();
    let outcome = filter.filter_and_process(acme_tile(), "CA", &desktop(100), &mut tags);
    assert!(outcome.tile.is_none());
    assert_eq!(outcome.metric, Some("filter.adm.err.invalid_location"));
    let outcome = filter.filter_and_process(acme_tile(), "US", &desktop(90), &mut tags);
    assert_eq!(outcome.metric, Some("filter.adm.err.non_legacy"));
}

#[test]
fn filter_reports_bad_click_and_unknown_advertisers() {
    let mut filter = acme_filter();
    let mut tags = Tags::new();
    let mut tile = acme_tile();
    tile.click_url = "https://example.com/c?ci=1&ctag=2&key=3".to_owned();
    let outcome = filter.filter_and_process(tile, "US", &desktop(100), &mut tags);
    assert_eq!(outcome.metric, Some("filter.adm.err.invalid_click"));
    assert!(outcome.report.is_some());

    let mut tile = acme_tile();
    tile.name = "Dunder Mifflin".to_owned();
    let outcome = filter.filter_and_process(tile, "US", &desktop(100), &mut tags);
    assert_eq!(outcome.metric, Some("filter.adm.err.unexpected_advertiser"));
    assert!(outcome.report.is_some());

    filter.ignore_list.insert("dunder mifflin".to_owned());
    let mut tile = acme_tile();
    tile.name = "Dunder Mifflin".to_owned();
    let outcome = filter.filter_and_process(tile, "US", &desktop(100), &mut tags);
    assert!(outcome.tile.is_none());
    assert!(outcome.metric.is_none());
    assert!(outcome.report.is_none());
}

#[test]
fn impression_needs_only_an_id() {
    let filter = acme_filter();
    let mut tags = Tags::new();
    let mut tile = acme_tile();
    tile.impression_url = "https://example.net/i?id=1&x=2".to_owned();
    let outcome = filter.filter_and_process(tile, "US", &desktop(100), &mut tags);
    assert_eq!(outcome.metric, Some("filter.adm.err.invalid_impression"));
}
