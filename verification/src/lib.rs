//! Context Tile service
//!
//! Tiles are the links displayed on a "Firefox Home" page (displayed as
//! a new tab or default open page.) Context tiles are sponsored tiles
//! that can be offered. These tiles are provided by an advertising
//! partner (ADM). Contile provides a level of additional privacy by
//! disclosing only the minimal user info required, and providing a
//! caching system.
use vstd::prelude::*;
use vstd::string::*;

pub mod adm;
pub mod codec;
pub mod error;
pub mod handlers;
pub mod json;
pub mod strmap;
pub mod server;
pub mod settings;
pub mod sov;
pub mod tags;
pub mod text;
pub mod user_agent;
pub mod web_url;

verus! {

/// The name of the service.
pub const APP_NAME: &'static str = "contile";

/// The version of the service.
pub const APP_VERSION: &'static str = "1.8.1";

/// A version string such as `contile/1.8.1`: the name, the separator, the version.
pub fn version_string(app: &str, separator: &str, version: &str) -> (r: String)
    ensures
        r@ == app@ + separator@ + version@,
{
    let mut r = String::from_str(app);
    r.append(separator);
    r.append(version);
    r
}

/// The version string (e.g. `contile/1.8.1`) with the given separator: the service
/// name, the separator and `version` where a build supplies one, else the
/// package version.
pub fn app_version_with(version: Option<&str>, separator: &str) -> (r: String)
    ensures
        r@ == APP_NAME@ + separator@ + match version {
            Some(v) => v@,
            None => APP_VERSION@,
        },
{
    match version {
        Some(v) => version_string(APP_NAME, separator, v),
        None => version_string(APP_NAME, separator, APP_VERSION),
    }
}

/// The version string of the package (e.g. `contile/1.8.1`) with the given separator.
/// A build-time `CONTILE_VERSION` cannot be read here: the program passes it to
/// `app_version_with`, which this falls back to without one.
pub fn create_app_version(separator: &str) -> (r: String)
    ensures
        r@ == APP_NAME@ + separator@ + APP_VERSION@,
{
    app_version_with(None, separator)
}

} // verus!
