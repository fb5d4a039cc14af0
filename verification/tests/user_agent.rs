use contile::error::HandlerErrorKind;
use contile::user_agent::{device_info_from_fields, get_device_info, DeviceInfo, FormFactor, OsFamily, UaFields};

fn assert_device(ua: &str, os_family: OsFamily, form_factor: FormFactor, ff_version: u32) {
    match get_device_info(ua) {
        Ok(d) => assert_eq!(d, DeviceInfo { os_family, form_factor, ff_version }),
        Err(e) => panic!("unexpected error: {:?}", e),
    }
}

#[test]
fn macos() {
    assert_device(
        "Mozilla/5.0 (Macintosh; Intel Mac OS X 11.2; rv:85.0) Gecko/20100101 Firefox/85.0",
        OsFamily::MacOs,
        FormFactor::Desktop,
        85,
    );
}

#[test]
fn windows() {
    assert_device(
        "Mozilla/5.0 (Windows NT 6.1; Win64; x64; rv:61.0) Gecko/20100101 Firefox/61.0",
        OsFamily::Windows,
        FormFactor::Desktop,
        61,
    );
}

#[test]
fn linux() {
    assert_device(
        "Mozilla/5.0 (X11; Fedora; Linux x86_64; rv:82.0.1) Gecko/20100101 Firefox/82.0.1",
        OsFamily::Linux,
        FormFactor::Desktop,
        82,
    );
}

#[test]
fn android() {
    assert_device(
        "Mozilla/5.0 (Android 11; Mobile; rv:68.0) Gecko/68.0 Firefox/85.0",
        OsFamily::Android,
        FormFactor::Phone,
        85,
    );
}

#[test]
fn ios() {
    let ipad_ua = "Mozilla/5.0 (Macintosh; Intel Mac OS X 10_15_4) AppleWebKit/605.1.15 (KHTML, like Gecko) Version/13.1 Safari/605.1.15";
    let macos_ua = "Mozilla/5.0 (Macintosh; Intel Mac OS X 10.15; rv:95.0) Gecko/20100101 Firefox/95.0";
    let iphone_ua = "Mozilla/5.0 (iPhone; CPU iPhone OS 14_8_1 like Mac OS X) AppleWebKit/605.1.15 (KHTML, like Gecko) FxiOS/40.2 Mobile/15E148 Safari/605.1.15";
    assert_device(ipad_ua, OsFamily::IOs, FormFactor::Tablet, 13);
    assert_device(iphone_ua, OsFamily::IOs, FormFactor::Phone, 40);
    assert_device(macos_ua, OsFamily::MacOs, FormFactor::Desktop, 95);
}

#[test]
fn chromeos() {
    let ua_str = "Mozilla/5.0 (X11; CrOS x86_64 13816.64.0) AppleWebKit/537.36 (KHTML, like Gecko) Chrome/90.0.4430.100 Safari/537.36";
    let result = get_device_info(ua_str);
    assert!(result.is_err());
    let err = result.unwrap_err();
    match err.kind() {
        HandlerErrorKind::InvalidUA => {}
        _ => panic!("Incorrect error returned for test"),
    }
    assert!(err.tags.extra.get("ua") == Some(&ua_str.to_owned()));
    assert!(err.tags.extra.get("name") == Some(&"chrome".to_owned()));
}

#[test]
fn other_ua() {
    assert!(get_device_info(
        "Mozilla/5.0 (Macintosh; Intel Mac OS X 11_2) AppleWebKit/537.36 (KHTML, like Gecko) Chrome/88.0.4324.150 Safari/537.36"
    )
    .is_err());
}

#[test]
fn legacy_and_mobile_devices() {
    let old_desktop = DeviceInfo { form_factor: FormFactor::Desktop, os_family: OsFamily::Windows, ff_version: 90 };
    let new_desktop = DeviceInfo { form_factor: FormFactor::Desktop, os_family: OsFamily::Windows, ff_version: 91 };
    let old_phone = DeviceInfo { form_factor: FormFactor::Phone, os_family: OsFamily::Android, ff_version: 60 };
    let tablet = DeviceInfo { form_factor: FormFactor::Tablet, os_family: OsFamily::IOs, ff_version: 60 };
    assert!(old_desktop.legacy_only());
    assert!(!new_desktop.legacy_only());
    assert!(!old_phone.legacy_only());
    let old_other = DeviceInfo { form_factor: FormFactor::Other, os_family: OsFamily::Other, ff_version: 90 };
    assert!(!old_other.legacy_only());
    assert!(old_phone.is_mobile());
    assert!(tablet.is_mobile());
    assert!(!new_desktop.is_mobile());
}

#[test]
fn names_of_families_and_form_factors() {
    assert_eq!(OsFamily::IOs.to_string(), "ios");
    assert_eq!(OsFamily::MacOs.to_string(), "macos");
    assert_eq!(FormFactor::Desktop.to_string(), "desktop");
    assert_eq!(FormFactor::Phone.to_string(), "phone");
}

fn fields(name: &str, category: &str, os: &str, version: &str) -> Option<UaFields> {
    Some(UaFields { name: name.to_owned(), category: category.to_owned(), os: os.to_owned(), version: version.to_owned() })
}

#[test]
fn devices_from_parser_fields() {
    let d = device_info_from_fields("any", fields("Firefox", "pc", "Windows 10", "91.0")).ok().expect("firefox");
    assert_eq!(d, DeviceInfo { form_factor: FormFactor::Desktop, os_family: OsFamily::Windows, ff_version: 91 });
    let d = device_info_from_fields("Safari agent", fields("Safari", "pc", "Mac OSX", "15.0")).ok().expect("ipad");
    assert_eq!(d.form_factor, FormFactor::Tablet);
    assert_eq!(d.os_family, OsFamily::IOs);
    let e = device_info_from_fields("x", fields("Chrome", "pc", "Linux", "99")).err().expect("not firefox");
    assert_eq!(e.tags.extra.get("name"), Some(&"chrome".to_owned()));
    assert!(device_info_from_fields("x", None).is_err());
}
