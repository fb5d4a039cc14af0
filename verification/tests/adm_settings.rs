use contile::adm::filter::AdmFilter;
use contile::json::JsonValue;
use contile::adm::settings::{check_paths, make_host, AdmPse, ConfigError, PathFilter, PathMatching};
use contile::settings::test_settings;
use contile::user_agent::{DeviceInfo, FormFactor, OsFamily};

#[test]
fn test_valid_path_filters() {
    let adm_settings = r#"{"test-adv": {
            "US": [
                {
                    "host": "foo.com",
                    "paths": [
                        {
                            "value": "/bar/",
                            "matching": "prefix"
                        },
                        {
                            "value": "/gorp/",
                            "matching": "exact"
                        }
                    ]
                },
                {
                    "host": "foo.org"
                }
            ],
            "MX": [
                {
                    "host": "foo.mx"
                }
            ]
        }}"#;
    let result = AdmFilter::advertisers_from_string(adm_settings);
    assert!(result.is_ok());
}

#[test]
fn test_invalid_prefix_path_filters() {
    let adm_settings = r#"{"test-adv": {
            "US": [
                {
                    "host": "foo.com",
                    "paths": [
                        {
                            "value": "/bar",
                            "matching": "prefix"
                        },
                        {
                            "value": "/gorp/",
                            "matching": "exact"
                        }
                    ]
                }
            ]
        }}"#;
    assert!(AdmFilter::advertisers_from_string(adm_settings).is_err());
}

#[test]
fn test_invalid_path_filters() {
    let adm_settings = r#"{"test-adv": {
            "US": [
                {
                    "host": "foo.com",
                    "paths": [
                        {
                            "value": "/bar",
                            "matching": "prefix"
                        },
                        {
                            "value": "/gorp/",
                            "matching": "exact"
                        }
                    ]
                },
                {
                    "host": "foo.org",
                }
            ],
            "MX": [
                {
                    "host": "foo.mx",
                }
            ]
        }}"#;
    assert!(AdmFilter::advertisers_from_string(adm_settings).is_err());
}

#[test]
fn test_lower_ignore() {
    let mut settings = test_settings();
    settings.adm_ignore_advertisers = Some(r#"["Example", "INVALID"]"#.to_owned());
    let result = AdmFilter::from_settings(&settings, "", 0).ok().expect("filter");
    assert!(result.ignore_list.contains("example"));
    assert!(result.ignore_list.contains("invalid"));
    assert_eq!(result.ignore_list.len(), 2);
}

#[test]
fn advertisers_are_lowercased_and_deletions_read() {
    let text = r#"{"Acme": {"US": [{"host": "acme.biz"}], "delete": false, "Sidewalk": []}, "Old": {"delete": true}}"#;
    let m = AdmFilter::advertisers_from_string(text).ok().expect("valid");
    let acme = m.get("acme").expect("acme");
    assert!(!acme.delete);
    assert!(acme.countries.contains_key("US"));
    assert!(!acme.countries.contains_key("Sidewalk"));
    assert!(m.get("old").expect("old").delete);
}

#[test]
fn advertiser_settings_errors_name_the_place() {
    match AdmFilter::advertisers_from_string("") {
        Err(contile::adm::settings::ConfigError::Message(m)) => assert_eq!(m, "No ADM settings string specified"),
        _ => panic!("expected an error"),
    }
    match AdmFilter::advertisers_from_string(r#"{"A": {"US": 3}}"#) {
        Err(contile::adm::settings::ConfigError::Message(m)) => assert_eq!(m, "Invalid country information for A:US"),
        _ => panic!("expected an error"),
    }
    match AdmFilter::advertisers_from_string(r#"{"A": {"US": [{"host": 1}]}}"#) {
        Err(contile::adm::settings::ConfigError::Message(m)) => {
            assert_eq!(m, "Invalid host for path declaration for A:US")
        }
        _ => panic!("expected an error"),
    }
    match AdmFilter::advertisers_from_string(r#"{"A": {"US": [{"host": "a", "paths": [{"value": "/x/"}]}]}}"#) {
        Err(contile::adm::settings::ConfigError::Message(m)) => {
            assert_eq!(m, "Missing 'matching' for path declaration for A:US")
        }
        _ => panic!("expected an error"),
    }
    match AdmFilter::advertisers_from_string(r#"{"A": 5}"#) {
        Err(contile::adm::settings::ConfigError::Message(m)) => assert_eq!(m, "Invalid advertiser info A"),
        _ => panic!("expected an error"),
    }
}

#[test]
fn from_settings_checks_partner_arguments() {
    let mut settings = test_settings();
    settings.adm_sub1 = None;
    let e = AdmFilter::from_settings(&settings, "", 0).err().expect("error");
    assert_eq!(e.kind.message(), "Internal error: \"Missing argument args for adm_sub1 or adm_partner_id\"");
    let mut settings = test_settings();
    settings.adm_mobile_partner_id = Some("x".to_owned());
    assert!(AdmFilter::from_settings(&settings, "", 0).is_err());
}

#[test]
fn from_settings_reads_partners_and_cloud_sources() {
    let mut settings = test_settings();
    settings.adm_settings = r#"{"Acme": {"US": [{"host": "acme.biz"}]}, "Gone": {"US": [], "delete": true}}"#.to_owned();
    let f = AdmFilter::from_settings(&settings, &settings.adm_settings.clone(), 5).ok().expect("filter");
    assert!(f.advertiser_filters.adm_advertisers.contains_key("acme"));
    assert!(!f.advertiser_filters.adm_advertisers.contains_key("gone"));
    assert!(f.last_updated.is_none());
    assert!(f.legacy_list.contains("amazon"));

    let mut settings = test_settings();
    settings.adm_settings = "gs://bucket/settings.json".to_owned();
    let f = AdmFilter::from_settings(&settings, "not json", 5).ok().expect("filter");
    assert!(f.is_cloud());
    assert_eq!(f.last_updated, Some(5));
    assert_eq!(f.advertiser_filters.adm_advertisers.len(), 0);

    let mut settings = test_settings();
    settings.adm_settings = "{".to_owned();
    let e = AdmFilter::from_settings(&settings, "{", 5).err().expect("error");
    assert!(e.kind.message().starts_with("Internal error: \"Configuration error reading AdmFilter advertisers: Message("));
}

#[test]
fn from_settings_reads_defaults() {
    let mut settings = test_settings();
    settings.adm_defaults = Some(
        r#"{"click_hosts": ["example.com"], "impression_hosts": ["example.net"], "position": 2, "ignore_dmas": [1, 2]}"#
            .to_owned(),
    );
    let f = AdmFilter::from_settings(&settings, "", 0).ok().expect("filter");
    assert_eq!(f.defaults.click_hosts, vec![vec!["example".to_owned(), "com".to_owned()]]);
    assert_eq!(f.defaults.position, Some(2));
    assert_eq!(f.defaults.ignore_dmas, Some(vec![1, 2]));
    assert!(f.defaults.image_hosts.is_empty());

    settings.adm_defaults = Some(r#"{"position": 300}"#.to_owned());
    assert!(AdmFilter::from_settings(&settings, "", 0).is_err());
}

#[test]
fn hosts_round_trip() {
    let labels = contile::adm::settings::break_hosts("foo.example.com".to_owned());
    assert_eq!(labels, vec!["foo".to_owned(), "example".to_owned(), "com".to_owned()]);
    assert_eq!(make_host(&labels), "foo.example.com");
}

#[test]
fn path_matching_names() {
    assert!(matches!(PathMatching::try_from("PREFIX"), Ok(PathMatching::Prefix)));
    assert!(matches!(PathMatching::try_from("exact"), Ok(PathMatching::Exact)));
    match PathMatching::try_from("fuzzy") {
        Err(ConfigError::Message(m)) => assert_eq!(m, "Invalid Path Filter Type fuzzy"),
        _ => panic!("fuzzy is no path filter type"),
    }
    assert_eq!(PathMatching::Prefix.as_str(), "prefix");
    let d = PathFilter::default_filter();
    assert_eq!(d.value, "/");
    assert!(check_paths(&None));
    assert!(check_paths(&Some(vec![])));
    assert!(!check_paths(&Some(vec![PathFilter::default_filter()])));
}

#[test]
fn partner_ids_by_device() {
    let mut settings = test_settings();
    settings.adm_partner_id = Some("p".to_owned());
    settings.adm_sub1 = Some("s".to_owned());
    settings.adm_mobile_partner_id = Some("mp".to_owned());
    let phone = DeviceInfo { form_factor: FormFactor::Phone, os_family: OsFamily::Android, ff_version: 100 };
    let pc = DeviceInfo { form_factor: FormFactor::Desktop, os_family: OsFamily::Linux, ff_version: 100 };
    let m = AdmPse::appropriate_from_settings(&phone, &settings);
    assert_eq!(m.partner_id, "mp");
    assert_eq!(m.sub1, "s");
    assert_eq!(m.endpoint, "http://localhost:8675/");
    let d = AdmPse::appropriate_from_settings(&pc, &settings);
    assert_eq!(d.partner_id, "p");
}

#[test]
fn from_settings_names_bad_lists_and_defaults() {
    let mut settings = test_settings();
    settings.adm_ignore_advertisers = Some("[1, 2]".to_owned());
    let e = AdmFilter::from_settings(&settings, "", 0).err().expect("error");
    let m = e.kind.message();
    assert!(m.starts_with("Internal error: \"Invalid ADM Ignore list specification: Error("));
    assert!(m.contains("invalid type: integer `1`, expected a string"));
    let mut settings = test_settings();
    settings.adm_has_legacy_image = Some("{}".to_owned());
    let e = AdmFilter::from_settings(&settings, "", 0).err().expect("error");
    let m = e.kind.message();
    assert!(m.starts_with("Internal error: \"Invalid ADM Legacy list specification: Error("));
    assert!(m.contains("expected a sequence"));
    let mut settings = test_settings();
    settings.adm_defaults = Some("[]".to_owned());
    let e = AdmFilter::from_settings(&settings, "", 0).err().expect("error");
    assert_eq!(e.kind.message(), "Internal error: \"Invalid ADM defaults\"");
}

#[test]
fn partner_settings_that_are_no_map_are_refused_with_the_parser_message() {
    match AdmFilter::advertisers_from_string("[1]") {
        Err(ConfigError::Message(m)) => {
            assert!(m.starts_with("ADM Settings parse error: Error("));
            assert!(m.contains("expected a map"));
        },
        _ => panic!("a list is no map of partners"),
    }
    match AdmFilter::advertisers_from_string("{") {
        Err(ConfigError::Message(m)) => assert!(m.starts_with("ADM Settings parse error: Error(")),
        _ => panic!("not JSON"),
    }
}

#[test]
fn partner_settings_from_parsed_members() {
    let filters = JsonValue::Array(vec![JsonValue::Object(vec![("host".to_owned(), JsonValue::Str("acme.biz".to_owned()))])]);
    let members = vec![("Acme".to_owned(), JsonValue::Object(vec![("US".to_owned(), filters)]))];
    let m = AdmFilter::advertisers_from_members(&members).ok().expect("valid");
    assert_eq!(m.len(), 1);
    assert!(m.get("acme").is_some());
    let bad = vec![("Acme".to_owned(), JsonValue::Bool(true))];
    assert!(AdmFilter::advertisers_from_members(&bad).is_err());
}
