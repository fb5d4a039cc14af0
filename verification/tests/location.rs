use contile::server::location::{location_providers, parse_test_header, test_header_is_readable, LocationProvider};
use contile::settings::test_settings;

#[test]
fn from_test_header() {
    let l = parse_test_header("US, USCA, 862");
    assert_eq!(l.country.as_deref(), Some("US"));
    assert_eq!(l.region.as_deref(), Some("CA"));
    assert_eq!(l.dma, Some(862));
}

#[test]
fn partial_test_headers() {
    let l = parse_test_header("US, CA");
    assert_eq!(l.country.as_deref(), Some("US"));
    assert_eq!(l.region.as_deref(), Some("CA"));
    assert_eq!(l.dma, None);
    let l = parse_test_header(" , , 100");
    assert!(l.country.is_none());
    assert!(l.region.is_none());
    assert!(l.dma.is_none());
    let l = parse_test_header("GB");
    assert_eq!(l.country.as_deref(), Some("GB"));
    assert!(l.region.is_none());
    assert!(test_header_is_readable("US, USCA, 862"));
    assert!(!test_header_is_readable("US, a\u{20ac}bc"));
}

#[test]
fn providers_in_order() {
    let mut settings = test_settings();
    settings.location_test_header = Some("X-Test-Location".to_owned());
    settings.maxminddb_loc = Some("/db.mmdb".to_owned());
    let p = location_providers(&settings);
    assert_eq!(p.len(), 3);
    assert!(matches!(&p[0], LocationProvider::TestHeader(h) if h == "x-test-location"));
    assert!(matches!(&p[1], LocationProvider::MaxMind(m) if m == "/db.mmdb"));
    assert!(matches!(&p[2], LocationProvider::Fallback(c) if c == "US"));
}
