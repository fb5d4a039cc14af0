use contile::adm::filter::AdmFilter;
use contile::adm::settings::AdmPse;
use contile::adm::tiles::{partner_request_url, AdmTileResponse};
use contile::tags::Tags;
use contile::user_agent::{DeviceInfo, FormFactor, OsFamily};

#[test]
fn partner_urls_carry_the_audience() {
    let pse = AdmPse {
        partner_id: "demofeed".to_owned(),
        sub1: "123".to_owned(),
        endpoint: "https://adm.example.com/v1".to_owned(),
    };
    let u = partner_request_url(&pse, "US", "CA", FormFactor::Desktop, OsFamily::Windows, 10).ok().expect("url");
    assert_eq!(
        u,
        "https://adm.example.com/v1?partner=demofeed&sub1=123&country-code=US&region-code=CA&form-factor=desktop&os-family=windows&sub2=newtab&v=1.0&results=10"
    );
    let bad = AdmPse { partner_id: String::new(), sub1: String::new(), endpoint: "not a url".to_owned() };
    assert!(partner_request_url(&bad, "US", "", FormFactor::Phone, OsFamily::IOs, 2).is_err());
}

#[test]
fn partner_responses_are_read_and_filtered() {
    let text = r#"{"tiles": [
        {"id": 1, "name": "Acme", "advertiser_url": "https://acme.biz/ca/x", "click_url": "https://example.com/c?ci=1&ctag=1&key=1&version=1", "image_url": "https://example.org/1.jpg", "impression_url": "https://example.net/i?id=1"},
        {"id": 2, "name": "Acme", "advertiser_url": "https://acme.biz/ca/y", "click_url": "https://example.com/c?ci=1&ctag=1&key=1&version=1", "image_url": "https://example.org/2.jpg", "impression_url": "https://example.net/i?id=2", "position": 2},
        {"id": 3, "name": "Dunder Mifflin", "advertiser_url": "https://dunder.biz/", "click_url": "https://example.com/c?ci=1&ctag=1&key=1&version=1", "image_url": "https://example.org/3.jpg", "impression_url": "https://example.net/i?id=3"},
        {"id": 4, "name": "Acme", "advertiser_url": "https://acme.biz/ca/z", "click_url": "https://example.com/c?ci=1&ctag=1&key=1&version=1", "image_url": "https://example.org/4.jpg", "impression_url": "https://example.net/i?id=4"}
    ]}"#;
    let response = AdmTileResponse::from_json(text).ok().expect("valid response");
    assert_eq!(response.tiles.len(), 4);
    assert_eq!(response.tiles[1].position, Some(2));

    let mut filter = AdmFilter::default();
    let s = r#"{"adm_advertisers":{"Acme": {"US": [{"host": "acme.biz", "paths": [{"value": "/ca/", "matching": "prefix"}]}]}}}"#;
    filter.update(contile::adm::filter::AdmAdvertiserSettings::from_download(s).ok().expect("valid"), 0);
    filter.defaults.click_hosts = vec![vec!["example".to_owned(), "com".to_owned()]];
    filter.defaults.impression_hosts = vec![vec!["example".to_owned(), "net".to_owned()]];
    let device = DeviceInfo { form_factor: FormFactor::Desktop, os_family: OsFamily::Linux, ff_version: 100 };
    let mut tags = Tags::new();
    let out = filter.filter_tiles(response, "US", &device, &mut tags, 2);
    assert_eq!(out.response.tiles.len(), 2);
    assert_eq!(out.response.tiles[0].id, 1);
    assert_eq!(out.response.tiles[1].id, 2);
    assert!(out.rejected.is_empty());

    assert!(AdmTileResponse::from_json("{\"tiles\": [{\"id\": 1}]}").is_err());
    assert!(AdmTileResponse::from_json("nope").is_err());
}

#[test]
fn rejected_tiles_keep_their_own_tags() {
    let text = r#"{"tiles": [
        {"id": 5, "name": "Acme", "advertiser_url": "https://acme.biz/ca/x", "click_url": "https://example.com/c?ci=1", "image_url": "https://example.org/1.jpg", "impression_url": "https://example.net/i?id=1"},
        {"id": 6, "name": "Acme", "advertiser_url": "https://acme.biz/ca/y", "click_url": "https://example.com/c?ci=1&ctag=1&key=1&version=1", "image_url": "https://example.org/2.jpg", "impression_url": "https://example.net/i?id=2&x=1"},
        {"id": 7, "name": "Dunder Mifflin", "advertiser_url": "https://dunder.biz/", "click_url": "https://example.com/c?ci=1&ctag=1&key=1&version=1", "image_url": "https://example.org/3.jpg", "impression_url": "https://example.net/i?id=3"},
        {"id": 8, "name": "Acme", "advertiser_url": "https://acme.biz/ca/z", "click_url": "https://example.com/c?ci=1&ctag=1&key=1&version=1", "image_url": "https://example.org/4.jpg", "impression_url": "https://example.net/i?id=4"},
        {"id": 9, "name": "Initech", "advertiser_url": "https://initech.biz/", "click_url": "https://example.com/c?ci=1&ctag=1&key=1&version=1", "image_url": "https://example.org/5.jpg", "impression_url": "https://example.net/i?id=5"}
    ]}"#;
    let response = AdmTileResponse::from_json(text).ok().expect("valid response");
    let mut filter = AdmFilter::default();
    let s = r#"{"adm_advertisers":{"Acme": {"US": [{"host": "acme.biz", "paths": [{"value": "/ca/", "matching": "prefix"}]}]}}}"#;
    filter.update(contile::adm::filter::AdmAdvertiserSettings::from_download(s).ok().expect("valid"), 0);
    filter.defaults.click_hosts = vec![vec!["example".to_owned(), "com".to_owned()]];
    filter.defaults.impression_hosts = vec![vec!["example".to_owned(), "net".to_owned()]];
    let device = DeviceInfo { form_factor: FormFactor::Desktop, os_family: OsFamily::Linux, ff_version: 100 };
    let mut tags = Tags::new();
    // One tile is wanted: filtering stops at the first accepted one, and the
    // last tile is never looked at.
    let out = filter.filter_tiles(response, "US", &device, &mut tags, 1);
    assert_eq!(out.response.tiles.len(), 1);
    assert_eq!(out.response.tiles[0].id, 8);
    assert_eq!(out.rejected.len(), 3);
    assert_eq!(out.rejected[0].metric, Some("filter.adm.err.invalid_click"));
    assert_eq!(
        out.rejected[0].tags.extra.get("url"),
        Some(&"https://example.com/c?ci=1".to_owned())
    );
    assert_eq!(out.rejected[0].tags.tags.get("type"), Some(&"Click".to_owned()));
    assert_eq!(out.rejected[0].tags.extra.get("tile"), Some(&"Acme".to_owned()));
    assert_eq!(out.rejected[0].tags.extra.get("reason"), Some(&"missing required query param".to_owned()));
    assert_eq!(out.rejected[0].tags.extra.get("param"), Some(&"ctag".to_owned()));
    assert_eq!(out.rejected[1].metric, Some("filter.adm.err.invalid_impression"));
    assert_eq!(out.rejected[1].tags.tags.get("type"), Some(&"Impression".to_owned()));
    assert_eq!(out.rejected[1].tags.extra.get("param"), Some(&"id".to_owned()));
    // The tags end as the last failing check left them.
    assert_eq!(tags.extra.get("url"), Some(&"https://example.net/i?id=2&x=1".to_owned()));
    assert_eq!(out.rejected[1].tags.extra.get("url"), Some(&"https://example.net/i?id=2&x=1".to_owned()));
    assert_eq!(out.rejected[2].metric, Some("filter.adm.err.unexpected_advertiser"));
    assert!(out.rejected[2].report.is_some());
}
