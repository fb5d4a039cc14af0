use contile::settings::test_settings;
use contile::sov::{LastResponse, SOVManager};

const MOCK_SOV: &str = "eyJuYW1lIjoiU09WLTIwMjMwNTE4MjE1MzE2IiwiYWxsb2NhdGl\
                        vbnMiOlt7InBvc2l0aW9uIjoxLCJhbGxvY2F0aW9uIjpbeyJwYX\
                        J0bmVyIjoiYW1wIiwicGVyY2VudGFnZSI6MTAwfV19LHsicG9za\
                        XRpb24iOjIsImFsbG9jYXRpb24iOlt7InBhcnRuZXIiOiJhbXAi\
                        LCJwZXJjZW50YWdlIjo4OH0seyJwYXJ0bmVyIjoibW96LXNhbGV\
                        zIiwicGVyY2VudGFnZSI6MTJ9XX1dfQ";

const SOV_JSON: &str = r#"{
    "name": "SOV-20230518215316",
    "allocations": [
        {
            "position": 1,
            "allocation": [
                {
                    "partner": "amp",
                    "percentage": 100
                }
            ]
        },
        {
            "position": 2,
            "allocation": [
                {
                    "partner": "amp",
                    "percentage": 88
                },
                {
                    "partner": "moz-sales",
                    "percentage": 12
                }
            ]
        }
    ]
}"#;

#[test]
fn test_valid_json_string() {
    let mut settings = test_settings();
    settings.sov_source = SOV_JSON.to_owned();
    let sov_manager = SOVManager::from_settings(&settings, None, 0);
    assert_eq!(sov_manager.ok().expect("manager").encoded_sov.as_deref(), Some(MOCK_SOV));
}

#[test]
fn test_valid_path() {
    let mut settings = test_settings();
    settings.sov_source = "./test-engineering/contract-tests/volumes/contile/sov_settings.json".to_owned();
    let sov_manager = SOVManager::from_settings(&settings, Some(Some(SOV_JSON.to_owned())), 0);
    assert_eq!(sov_manager.ok().expect("manager").encoded_sov.as_deref(), Some(MOCK_SOV));
}

#[test]
fn bad_sov_sources_are_refused() {
    let mut settings = test_settings();
    settings.sov_source = "gs://bad^^url".to_owned();
    let e = SOVManager::from_settings(&settings, None, 0).err().expect("error");
    assert_eq!(e.kind.message(), "Internal error: \"Unable to parse SOV URL 'gs://bad^^url'\"");

    let mut settings = test_settings();
    settings.sov_source = "./adm_settings.json".to_owned();
    let e = SOVManager::from_settings(&settings, Some(Some("{\"a\": 1}".to_owned())), 0).err().expect("error");
    assert_eq!(
        e.kind.message(),
        "Internal error: \"Unable to parse SOV settings from file './adm_settings.json'\""
    );

    let mut settings = test_settings();
    settings.sov_source = "{}".to_owned();
    let e = SOVManager::from_settings(&settings, None, 0).err().expect("error");
    assert_eq!(e.kind.message(), "Internal error: \"Could not parse SOV settings inline: \\\"{}\\\"\"");
}

#[test]
fn cloud_sources_are_read_later() {
    let mut settings = test_settings();
    settings.sov_source = "gs://bucket/sov.json".to_owned();
    let m = SOVManager::from_settings(&settings, None, 0).ok().expect("manager");
    assert!(m.encoded_sov.is_none());
    assert!(m.last_response.is_none());
    assert_eq!(m.source_url.expect("url").host.as_deref(), Some("bucket"));
}

#[test]
fn updates_replace_the_encoding() {
    let mut settings = test_settings();
    settings.sov_source = "gs://bucket/sov.json".to_owned();
    let mut m = SOVManager::from_settings(&settings, None, 0).ok().expect("manager");
    let last = LastResponse::from_download(SOV_JSON, 42).ok().expect("valid");
    m.update(last);
    assert_eq!(m.encoded_sov.as_deref(), Some(MOCK_SOV));
    assert_eq!(m.last_updated(), Some(42));
    assert!(LastResponse::from_download("[]", 1).is_err());
}

#[test]
#[should_panic(expected = "Unable to parse SOV URL 'gs://bad^^url'")]
fn test_bad_gcs_url() {
    let mut settings = test_settings();
    settings.sov_source = "gs://bad^^url".to_owned();
    let _bad_url = SOVManager::from_settings(&settings, None, 0).unwrap();
}

#[test]
#[should_panic(
    expected = "Unable to parse SOV settings from file './test-engineering/contract-tests/volumes/contile/adm_settings.json'"
)]
fn test_bad_path() {
    let mut settings = test_settings();
    settings.sov_source = "./test-engineering/contract-tests/volumes/contile/adm_settings.json".to_owned();
    // The file holds partner settings, not share-of-voice settings.
    let contents = r#"{"acme": {"US": [{"host": "www.acme.biz"}]}}"#.to_owned();
    SOVManager::from_settings(&settings, Some(Some(contents)), 0).unwrap();
}

#[test]
#[should_panic(expected = "Could not parse SOV settings inline: \\\"{}\\\"")]
fn test_bad_json_setting_string() {
    let mut settings = test_settings();
    settings.sov_source = "{}".to_owned();
    SOVManager::from_settings(&settings, None, 0).unwrap();
}
