use contile::{app_version_with, create_app_version, version_string};

#[test]
fn test_create_app_version_fallback() {
    assert_eq!(create_app_version("/"), "contile/1.8.1");
}

#[test]
fn app_version_takes_build_version() {
    assert_eq!(app_version_with(Some("2.0.0"), "@"), "contile@2.0.0");
    assert_eq!(app_version_with(None, "-"), "contile-1.8.1");
    assert_eq!(version_string("a", "+", "b"), "a+b");
}
