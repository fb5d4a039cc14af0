//! Filter settings for the partner's tiles.
use vstd::prelude::*;

use crate::adm::decode::{defaults_json, partners_view, string_list_spec, DefaultsView};
use crate::adm::filter::{AdmAdvertiserSettings, AdmFilter};
use crate::error::{debug_quoted, debug_string, HandlerError, HandlerErrorKind, HandlerResult, KindView};
use crate::strmap::{keys_of, map_of, StrSet};
use crate::web_url::{url_crate_parse, ParsedUrl};
use crate::json::{
    fold_result, json_map_error, json_string_set_error, lemma_fold_error_stays, lemma_fold_step,
    lemma_fold_whole, member_index, obj_get, parse_json, serde_json_from_str, serde_json_map_error,
    serde_json_string_set_error, JsonValue,
};
use crate::settings::Settings;
use crate::strmap::StrMap;
use crate::text::{
    concat, copy_str, join_char, join_with, lemma_join_split, lemma_split_join, split_char, split_on,
    str_eq, strs_view, to_lowercase, unicode_lowercase, utf8_len, utf8_len_exceeds,
};
use crate::user_agent::DeviceInfo;

verus! {

/// A configuration error, with its message.
#[derive(Debug)]
pub enum ConfigError {
    /// A configuration value is wrong.
    Message(String),
    /// A configuration value is missing.
    NotFound(String),
}

/// How a path filter compares a path.
#[derive(Clone, Copy, Debug, PartialEq, Eq, Structural)]
pub enum PathMatching {
    /// The path must begin with the value.
    Prefix,
    /// The path must equal the value.
    Exact,
}

impl PathMatching {
    /// The lower-case name of the strategy.
    pub open spec fn name(self) -> Seq<char> {
        match self {
            PathMatching::Prefix => "prefix"@,
            PathMatching::Exact => "exact"@,
        }
    }

    /// The strategy named by `text`, ignoring case: `prefix` or `exact`.
    pub fn try_from(text: &str) -> (r: Result<PathMatching, ConfigError>)
        ensures
            match r {
                Ok(m) => m.name() == unicode_lowercase(text@),
                Err(e) => unicode_lowercase(text@) != "prefix"@ && unicode_lowercase(text@) != "exact"@ && (e
                    matches ConfigError::Message(m) && m@ == "Invalid Path Filter Type "@ + text@),
            },
    {
        let lower = to_lowercase(text);
        if str_eq(lower.as_str(), "prefix") {
            Ok(PathMatching::Prefix)
        } else if str_eq(lower.as_str(), "exact") {
            Ok(PathMatching::Exact)
        } else {
            Err(ConfigError::Message(concat("Invalid Path Filter Type ", text)))
        }
    }

    /// The lower-case name of the strategy.
    pub fn as_str(self) -> (r: &'static str)
        ensures
            r@ == self.name(),
    {
        match self {
            PathMatching::Prefix => "prefix",
            PathMatching::Exact => "exact",
        }
    }
}

/// How the path of an advertiser URL is filtered.
#[derive(Debug)]
pub struct PathFilter {
    pub value: String,
    pub matching: PathMatching,
}

impl View for PathFilter {
    type V = (Seq<char>, PathMatching);

    open spec fn view(&self) -> (Seq<char>, PathMatching) {
        (self.value@, self.matching)
    }
}

/// The views of a list of path filters.
pub open spec fn path_filters_view(ps: Seq<PathFilter>) -> Seq<(Seq<char>, PathMatching)> {
    ps.map_values(|p: PathFilter| p@)
}

impl PathFilter {
    /// The default path filter: exactly `/`.
    pub fn default_filter() -> (r: PathFilter)
        ensures
            r.value@ == "/"@,
            r.matching == PathMatching::Exact,
    {
        PathFilter { value: copy_str("/"), matching: PathMatching::Exact }
    }
}

/// The filtering rule for an advertiser URL: a host, and optionally a list of path filters.
///
/// A URL passes when its host equals `host` and either there are no `paths` and the
/// path is `/`, or one of the `paths` accepts the path: an `exact` filter when the
/// path equals its value, a `prefix` filter when its value begins the path (compared
/// with a trailing `/` added to the path where it has none).
#[derive(Debug)]
pub struct AdvertiserUrlFilter {
    pub host: String,
    pub paths: Option<Vec<PathFilter>>,
}

/// An advertiser URL filter as values.
pub struct UrlFilterView {
    pub host: Seq<char>,
    pub paths: Option<Seq<(Seq<char>, PathMatching)>>,
}

impl View for AdvertiserUrlFilter {
    type V = UrlFilterView;

    open spec fn view(&self) -> UrlFilterView {
        UrlFilterView {
            host: self.host@,
            paths: match self.paths {
                Some(ps) => Some(path_filters_view(ps@)),
                None => None,
            },
        }
    }
}

/// The views of a list of advertiser URL filters.
pub open spec fn url_filters_view(fs: Seq<AdvertiserUrlFilter>) -> Seq<UrlFilterView> {
    fs.map_values(|f: AdvertiserUrlFilter| f@)
}

/// Whether a path filter list is absent or empty (so that it is not written out).
pub fn check_paths(paths: &Option<Vec<PathFilter>>) -> (r: bool)
    ensures
        r == (match paths {
            Some(p) => p@.len() == 0,
            None => true,
        }),
{
    match paths {
        Some(p) => p.len() == 0,
        None => true,
    }
}

/// The filter settings for one partner: the URL filters of each country, and whether
/// the partner is to be removed.
#[derive(Debug)]
pub struct AdmAdvertiserFilterSettings {
    pub countries: StrMap<Vec<AdvertiserUrlFilter>>,
    pub delete: bool,
}

/// A partner's filter settings as values.
pub struct AdvertiserView {
    pub countries: Map<Seq<char>, Seq<UrlFilterView>>,
    pub delete: bool,
}

/// The views of the URL filters of each country.
pub open spec fn countries_view(m: Map<Seq<char>, Vec<AdvertiserUrlFilter>>) -> Map<Seq<char>, Seq<UrlFilterView>> {
    m.map_values(|v: Vec<AdvertiserUrlFilter>| url_filters_view(v@))
}

impl View for AdmAdvertiserFilterSettings {
    type V = AdvertiserView;

    open spec fn view(&self) -> AdvertiserView {
        AdvertiserView { countries: countries_view(self.countries@), delete: self.delete }
    }
}

/// The views of the settings of each partner.
pub open spec fn advertisers_view(m: Map<Seq<char>, AdmAdvertiserFilterSettings>) -> Map<Seq<char>, AdvertiserView> {
    m.map_values(|a: AdmAdvertiserFilterSettings| a@)
}

/// A host name cut into its dot-separated labels (`"example.com"` -> `["example", "com"]`).
pub fn break_hosts(host: String) -> (r: Vec<String>)
    ensures
        strs_view(r@) == split_on(host@, '.'),
{
    split_char(host.as_str(), '.')
}

/// Host labels glued back together with dots (`["example", "com"]` -> `"example.com"`).
pub fn make_host(split_host: &Vec<String>) -> (r: String)
    ensures
        r@ == join_with(strs_view(split_host@), '.'),
{
    join_char(split_host, '.')
}

/// Breaking a host into labels and making a host of them gives the host back.
pub proof fn lemma_make_break_host(host: Seq<char>)
    ensures
        join_with(split_on(host, '.'), '.') == host,
{
    lemma_join_split(host, '.');
}

/// Making a host of labels without dots and breaking it again gives the labels back.
pub proof fn lemma_break_make_host(labels: Seq<Seq<char>>)
    requires
        labels.len() >= 1,
        forall|i: int| 0 <= i < labels.len() ==> !(#[trigger] labels[i]).contains('.'),
    ensures
        split_on(join_with(labels, '.'), '.') == labels,
{
    lemma_split_join(labels, '.');
}

/// Defaults applied to every partner's tiles.
#[derive(Debug)]
pub struct AdmDefaults {
    /// Valid hosts and paths for the `advertiser_url`
    pub advertiser_urls: Vec<AdvertiserUrlFilter>,
    /// Valid hosts (as labels) for the `impression_url`
    pub impression_hosts: Vec<Vec<String>>,
    /// Valid hosts (as labels) for the `click_url`
    pub click_hosts: Vec<Vec<String>>,
    /// Valid hosts (as labels) for the `image_url`; empty means any
    pub image_hosts: Vec<Vec<String>>,
    /// valid position for the tile
    pub position: Option<u8>,
    /// Advertisers to ignore
    pub ignore_advertisers: Option<Vec<String>>,
    /// DMAs to leave unreported
    pub ignore_dmas: Option<Vec<u8>>,
}

impl AdmDefaults {
    /// Defaults with nothing in them.
    pub fn empty() -> (r: AdmDefaults)
        ensures
            r.advertiser_urls@.len() == 0,
            r.impression_hosts@.len() == 0,
            r.click_hosts@.len() == 0,
            r.image_hosts@.len() == 0,
            r.position is None,
            r.ignore_advertisers is None,
            r.ignore_dmas is None,
    {
        AdmDefaults {
            advertiser_urls: Vec::new(),
            impression_hosts: Vec::new(),
            click_hosts: Vec::new(),
            image_hosts: Vec::new(),
            position: None,
            ignore_advertisers: None,
            ignore_dmas: None,
        }
    }
}

/// ADM Partner/Sub1/Endpoint, which depend on the type of device requesting the tile.
#[derive(Debug)]
pub struct AdmPse {
    pub partner_id: String,
    pub sub1: String,
    pub endpoint: String,
}

/// The text of an optional setting, or the empty text.
pub open spec fn text_or_empty(o: Option<String>) -> Seq<char> {
    match o {
        Some(s) => s@,
        None => Seq::<char>::empty(),
    }
}

/// The text of an optional setting, or `fallback`.
pub open spec fn text_or(o: Option<String>, fallback: Seq<char>) -> Seq<char> {
    match o {
        Some(s) => s@,
        None => fallback,
    }
}

fn clone_or_empty(o: &Option<String>) -> (r: String)
    ensures
        r@ == text_or_empty(*o),
{
    match o {
        Some(s) => s.clone(),
        None => String::new(),
    }
}

fn clone_or(o: &Option<String>, fallback: String) -> (r: String)
    ensures
        r@ == text_or(*o, fallback@),
{
    match o {
        Some(s) => s.clone(),
        None => fallback,
    }
}

impl AdmPse {
    /// The information for a generic connection.
    pub fn default_from_settings(settings: &Settings) -> (r: AdmPse)
        ensures
            r.partner_id@ == text_or_empty(settings.adm_partner_id),
            r.sub1@ == text_or_empty(settings.adm_sub1),
            r.endpoint@ == settings.adm_endpoint_url@,
    {
        AdmPse {
            partner_id: clone_or_empty(&settings.adm_partner_id),
            sub1: clone_or_empty(&settings.adm_sub1),
            endpoint: settings.adm_endpoint_url.clone(),
        }
    }

    /// The information for a mobile connection: the mobile settings, each falling back
    /// to the generic one.
    pub fn mobile_from_settings(settings: &Settings) -> (r: AdmPse)
        ensures
            r.partner_id@ == text_or(settings.adm_mobile_partner_id, text_or_empty(settings.adm_partner_id)),
            r.sub1@ == text_or(settings.adm_mobile_sub1, text_or_empty(settings.adm_sub1)),
            r.endpoint@ == text_or(settings.adm_mobile_endpoint_url, settings.adm_endpoint_url@),
    {
        let default = Self::default_from_settings(settings);
        AdmPse {
            partner_id: clone_or(&settings.adm_mobile_partner_id, default.partner_id),
            sub1: clone_or(&settings.adm_mobile_sub1, default.sub1),
            endpoint: clone_or(&settings.adm_mobile_endpoint_url, default.endpoint),
        }
    }

    /// The information appropriate to the device: the mobile one for mobile devices.
    pub fn appropriate_from_settings(device_info: &DeviceInfo, settings: &Settings) -> (r: AdmPse)
        ensures
            r.partner_id@ == (if device_info.is_mobile_spec() {
                text_or(settings.adm_mobile_partner_id, text_or_empty(settings.adm_partner_id))
            } else {
                text_or_empty(settings.adm_partner_id)
            }),
            r.sub1@ == (if device_info.is_mobile_spec() {
                text_or(settings.adm_mobile_sub1, text_or_empty(settings.adm_sub1))
            } else {
                text_or_empty(settings.adm_sub1)
            }),
            r.endpoint@ == (if device_info.is_mobile_spec() {
                text_or(settings.adm_mobile_endpoint_url, settings.adm_endpoint_url@)
            } else {
                settings.adm_endpoint_url@
            }),
    {
        if device_info.is_mobile() {
            return Self::mobile_from_settings(settings);
        }
        Self::default_from_settings(settings)
    }
}


/// `advertiser:country`, as the partner settings errors name a place.
pub open spec fn place(adv: Seq<char>, key: Seq<char>) -> Seq<char> {
    adv + ":"@ + key
}

/// The text of a JSON string, or the empty text for anything else.
pub open spec fn str_or_empty(v: JsonValue) -> Seq<char> {
    match v {
        JsonValue::Str(s) => s@,
        _ => Seq::<char>::empty(),
    }
}

/// The path filter strategy named (in lower case) by `name`.
pub open spec fn matching_named(name: Seq<char>) -> Option<PathMatching> {
    if name == "prefix"@ {
        Some(PathMatching::Prefix)
    } else if name == "exact"@ {
        Some(PathMatching::Exact)
    } else {
        None
    }
}

/// What the partner settings make of one path filter object of `adv:key`.
pub open spec fn path_filter_spec(adv: Seq<char>, key: Seq<char>, pf: JsonValue) -> Result<
    (Seq<char>, PathMatching),
    Seq<char>,
> {
    match pf {
        JsonValue::Object(fields) => match obj_get(fields@, "value"@) {
            None => Err("Missing 'value' for path declaration for "@ + place(adv, key)),
            Some(v) => match obj_get(fields@, "matching"@) {
                None => Err("Missing 'matching' for path declaration for "@ + place(adv, key)),
                Some(JsonValue::Str(m)) => match matching_named(unicode_lowercase(m@)) {
                    None => Err("Invalid string for 'matching' for path declaration for "@ + place(adv, key)),
                    Some(mt) => {
                        let value = str_or_empty(v);
                        if value.len() == 0 {
                            Err("Invalid or unparsable 'value' declaration for "@ + place(adv, key))
                        } else if mt == PathMatching::Prefix && value.last() != '/' {
                            Err(
                                "Advertiser "@ + place(adv, key)
                                    + " advertiser_urls contain invalid prefix PathFilter (missing trailing '/')"@,
                            )
                        } else {
                            Ok((value, mt))
                        }
                    },
                },
                Some(_) => Err("Invalid string for 'matching' for path declaration for "@ + place(adv, key)),
            },
        },
        _ => Err("Invalid path filter for path declaration for "@ + place(adv, key)),
    }
}

/// The trailing `/` rule binds prefix filters only: a path filter object whose
/// `value` is a non-empty text and whose `matching` is `exact` (in any case) is read
/// as that exact filter, whatever the value ends with; one whose `matching` is
/// `prefix` is read as that prefix filter exactly when its value ends with `/`.
pub proof fn lemma_exact_filters_need_no_slash(adv: Seq<char>, key: Seq<char>, fields: Vec<(String, JsonValue)>)
    requires
        obj_get(fields@, "value"@) matches Some(JsonValue::Str(v)) && v@.len() > 0,
        obj_get(fields@, "matching"@) matches Some(JsonValue::Str(m)),
    ensures
        ({
            let v = obj_get(fields@, "value"@)->Some_0->Str_0@;
            let m = obj_get(fields@, "matching"@)->Some_0->Str_0@;
            &&& unicode_lowercase(m) == "exact"@ ==> path_filter_spec(adv, key, JsonValue::Object(fields))
                == Ok::<(Seq<char>, PathMatching), Seq<char>>((v, PathMatching::Exact))
            &&& unicode_lowercase(m) == "prefix"@ ==> (path_filter_spec(adv, key, JsonValue::Object(fields)) is Ok
                <==> v.last() == '/')
            &&& unicode_lowercase(m) == "prefix"@ && v.last() == '/' ==> path_filter_spec(
                adv,
                key,
                JsonValue::Object(fields),
            ) == Ok::<(Seq<char>, PathMatching), Seq<char>>((v, PathMatching::Prefix))
        }),
{
    reveal_strlit("exact");
    reveal_strlit("prefix");
    assert("exact"@ != "prefix"@) by {
        assert("exact"@.len() != "prefix"@.len());
    }
}

/// One step over the path filters of `adv:key`.
pub open spec fn path_step(adv: Seq<char>, key: Seq<char>) -> spec_fn(Seq<(Seq<char>, PathMatching)>, JsonValue) -> Result<
    Seq<(Seq<char>, PathMatching)>,
    Seq<char>,
> {
    |acc: Seq<(Seq<char>, PathMatching)>, pf: JsonValue|
        match path_filter_spec(adv, key, pf) {
            Ok(p) => Ok(acc.push(p)),
            Err(e) => Err(e),
        }
}

/// A URL filter with no host and no paths, which the fields of a filter object fill in.
pub open spec fn blank_filter() -> UrlFilterView {
    UrlFilterView { host: Seq::<char>::empty(), paths: None }
}

/// One field of a URL filter object of `adv:key`: `host` sets the host, `paths` sets the
/// path filters (where there is at least one), anything else is ignored. Field names
/// are compared in lower case.
pub open spec fn filter_field_step(adv: Seq<char>, key: Seq<char>) -> spec_fn(UrlFilterView, (String, JsonValue)) -> Result<
    UrlFilterView,
    Seq<char>,
> {
    |f: UrlFilterView, m: (String, JsonValue)|
        if unicode_lowercase(m.0@) == "host"@ {
            match m.1 {
                JsonValue::Str(h) => Ok(UrlFilterView { host: h@, paths: f.paths }),
                _ => Err("Invalid host for path declaration for "@ + place(adv, key)),
            }
        } else if unicode_lowercase(m.0@) == "paths"@ {
            match m.1 {
                JsonValue::Array(items) => match fold_result(items@, Seq::empty(), path_step(adv, key)) {
                    Ok(ps) => if ps.len() > 0 {
                        Ok(UrlFilterView { host: f.host, paths: Some(ps) })
                    } else {
                        Ok(f)
                    },
                    Err(e) => Err(e),
                },
                _ => Err("missing list of path filters for path declaration for "@ + place(adv, key)),
            }
        } else {
            Ok(f)
        }
}

/// One URL filter object of the list of `adv:key`.
pub open spec fn candidate_step(adv: Seq<char>, key: Seq<char>) -> spec_fn(Seq<UrlFilterView>, JsonValue) -> Result<
    Seq<UrlFilterView>,
    Seq<char>,
> {
    |acc: Seq<UrlFilterView>, c: JsonValue|
        match c {
            JsonValue::Object(fields) => match fold_result(fields@, blank_filter(), filter_field_step(adv, key)) {
                Ok(f) => Ok(acc.push(f)),
                Err(e) => Err(e),
            },
            _ => Err("Invalid advertiser info for "@ + place(adv, key)),
        }
}

/// The URL filters of country `key` of advertiser `adv`.
pub open spec fn country_spec(adv: Seq<char>, key: Seq<char>, v: JsonValue) -> Result<Seq<UrlFilterView>, Seq<char>> {
    match v {
        JsonValue::Array(cands) => fold_result(cands@, Seq::empty(), candidate_step(adv, key)),
        _ => Err("Invalid country information for "@ + place(adv, key)),
    }
}

/// One member of an advertiser object: `delete` (in any case) sets the deletion flag
/// (where it is a boolean, else clears it), a key longer than two bytes is not a
/// country and is skipped, and a country gets its URL filters.
pub open spec fn advertiser_member_step(adv: Seq<char>) -> spec_fn(AdvertiserView, (String, JsonValue)) -> Result<
    AdvertiserView,
    Seq<char>,
> {
    |st: AdvertiserView, m: (String, JsonValue)|
        if unicode_lowercase(m.0@) == "delete"@ {
            Ok(
                AdvertiserView {
                    countries: st.countries,
                    delete: match m.1 {
                        JsonValue::Bool(b) => b,
                        _ => false,
                    },
                },
            )
        } else if utf8_len(m.0@) > 2 {
            Ok(st)
        } else {
            match country_spec(adv, m.0@, m.1) {
                Ok(l) => Ok(AdvertiserView { countries: st.countries.insert(m.0@, l), delete: st.delete }),
                Err(e) => Err(e),
            }
        }
}

/// Settings with no country and no deletion.
pub open spec fn blank_advertiser() -> AdvertiserView {
    AdvertiserView { countries: Map::empty(), delete: false }
}

/// The settings of advertiser `adv`.
pub open spec fn advertiser_spec(adv: Seq<char>, v: JsonValue) -> Result<AdvertiserView, Seq<char>> {
    match v {
        JsonValue::Object(members) => fold_result(members@, blank_advertiser(), advertiser_member_step(adv)),
        _ => Err("Invalid advertiser info "@ + adv),
    }
}

/// One advertiser of the settings document, stored under its lower-cased name.
pub open spec fn advertisers_step() -> spec_fn(Map<Seq<char>, AdvertiserView>, (String, JsonValue)) -> Result<
    Map<Seq<char>, AdvertiserView>,
    Seq<char>,
> {
    |acc: Map<Seq<char>, AdvertiserView>, m: (String, JsonValue)|
        match advertiser_spec(m.0@, m.1) {
            Ok(a) => Ok(acc.insert(unicode_lowercase(m.0@), a)),
            Err(e) => Err(e),
        }
}

/// The partner settings that a settings text gives, or the message of the error.
pub open spec fn advertisers_from_string_spec(text: Seq<char>) -> Result<Map<Seq<char>, AdvertiserView>, Seq<char>> {
    if text.len() == 0 {
        Err("No ADM settings string specified"@)
    } else {
        match serde_json_from_str(text) {
            Ok(JsonValue::Object(members)) => advertisers_from_members_spec(members@),
            _ => Err("ADM Settings parse error: "@ + map_error_text(text)),
        }
    }
}

/// The partner settings that the members of a JSON object give, or the message of
/// the error.
pub open spec fn advertisers_from_members_spec(members: Seq<(String, JsonValue)>) -> Result<
    Map<Seq<char>, AdvertiserView>,
    Seq<char>,
> {
    fold_result(members, Map::empty(), advertisers_step())
}

/// Why a text is no map of partner settings: the debug text of the error of reading it
/// as a map from strings to JSON values.
pub open spec fn map_error_text(text: Seq<char>) -> Seq<char> {
    match serde_json_map_error(text) {
        Some(m) => m,
        None => "expected a JSON object"@,
    }
}

/// The text of a configuration error.
pub open spec fn config_text(e: ConfigError) -> Seq<char> {
    match e {
        ConfigError::Message(m) => m@,
        ConfigError::NotFound(m) => m@,
    }
}

/// `prefix` followed by `adv:key`.
fn placed(prefix: &str, adv: &str, key: &str) -> (r: String)
    ensures
        r@ == prefix@ + place(adv@, key@),
{
    proof {
        reveal_strlit(":");
    }
    let a = concat(prefix, adv);
    let b = concat(a.as_str(), ":");
    let r = concat(b.as_str(), key);
    assert(r@ =~= prefix@ + place(adv@, key@));
    r
}

fn decode_path_filter(adv: &str, key: &str, pf: &JsonValue) -> (r: Result<PathFilter, ConfigError>)
    ensures
        match r {
            Ok(p) => path_filter_spec(adv@, key@, *pf) == Ok::<(Seq<char>, PathMatching), Seq<char>>(p@),
            Err(e) => e is Message && path_filter_spec(adv@, key@, *pf) == Err::<(Seq<char>, PathMatching), Seq<char>>(
                config_text(e),
            ),
        },
{
    proof {
        reveal_strlit("value");
        reveal_strlit("matching");
        reveal_strlit("prefix");
        reveal_strlit("exact");
    }
    let fields = match pf {
        JsonValue::Object(fields) => fields,
        _ => {
            return Err(ConfigError::Message(placed("Invalid path filter for path declaration for ", adv, key)));
        },
    };
    let vi = match member_index(fields, "value") {
        Some(i) => i,
        None => {
            return Err(ConfigError::Message(placed("Missing 'value' for path declaration for ", adv, key)));
        },
    };
    let mi = match member_index(fields, "matching") {
        Some(i) => i,
        None => {
            return Err(ConfigError::Message(placed("Missing 'matching' for path declaration for ", adv, key)));
        },
    };
    let mtext = match &fields[mi].1 {
        JsonValue::Str(m) => m,
        _ => {
            return Err(
                ConfigError::Message(placed("Invalid string for 'matching' for path declaration for ", adv, key)),
            );
        },
    };
    let matching = match PathMatching::try_from(mtext.as_str()) {
        Ok(m) => m,
        Err(_) => {
            return Err(
                ConfigError::Message(placed("Invalid string for 'matching' for path declaration for ", adv, key)),
            );
        },
    };
    proof {
        if matching == PathMatching::Exact {
            assert("exact"@[0] != "prefix"@[0]);
        }
    }
    assert(matching_named(unicode_lowercase(mtext@)) == Some(matching));
    let value = match &fields[vi].1 {
        JsonValue::Str(v) => v.clone(),
        _ => String::new(),
    };
    assert(value@ == str_or_empty(fields@[vi as int].1));
    if value.as_str().is_empty() {
        return Err(ConfigError::Message(placed("Invalid or unparsable 'value' declaration for ", adv, key)));
    }
    if matching == PathMatching::Prefix && !crate::text::ends_with(value.as_str(), "/") {
        proof {
            reveal_strlit("/");
            assert("/"@.is_suffix_of(value@) <==> value@.last() == '/') by {
                if value@.last() == '/' {
                    assert("/"@ =~= value@.subrange(value@.len() - 1, value@.len() as int));
                }
            }
        }
        let a = placed("Advertiser ", adv, key);
        let m = concat(a.as_str(), " advertiser_urls contain invalid prefix PathFilter (missing trailing '/')");
        return Err(ConfigError::Message(m));
    }
    proof {
        reveal_strlit("/");
        if matching == PathMatching::Prefix {
            assert("/"@.is_suffix_of(value@));
            assert(value@.subrange(value@.len() - 1, value@.len() as int)[0] == value@.last());
        }
    }
    Ok(PathFilter { value, matching })
}

fn decode_paths(adv: &str, key: &str, items: &Vec<JsonValue>) -> (r: Result<Vec<PathFilter>, ConfigError>)
    ensures
        match r {
            Ok(ps) => fold_result(items@, Seq::empty(), path_step(adv@, key@)) == Ok::<
                Seq<(Seq<char>, PathMatching)>,
                Seq<char>,
            >(path_filters_view(ps@)),
            Err(e) => e is Message && fold_result(items@, Seq::empty(), path_step(adv@, key@)) == Err::<
                Seq<(Seq<char>, PathMatching)>,
                Seq<char>,
            >(config_text(e)),
        },
{
    let ghost step = path_step(adv@, key@);
    let mut paths: Vec<PathFilter> = Vec::new();
    let mut i: usize = 0;
    assert(path_filters_view(paths@) =~= Seq::<(Seq<char>, PathMatching)>::empty());
    assert(items@.take(0) =~= Seq::<JsonValue>::empty());
    while i < items.len()
        invariant
            i <= items@.len(),
            step == path_step(adv@, key@),
            fold_result(items@.take(i as int), Seq::empty(), step) == Ok::<
                Seq<(Seq<char>, PathMatching)>,
                Seq<char>,
            >(path_filters_view(paths@)),
        decreases items@.len() - i,
    {
        proof {
            lemma_fold_step(items@, i as int, Seq::empty(), step);
        }
        match decode_path_filter(adv, key, &items[i]) {
            Ok(p) => {
                let ghost before = paths@;
                paths.push(p);
                assert(path_filters_view(paths@) =~= path_filters_view(before).push(p@));
            },
            Err(e) => {
                proof {
                    lemma_fold_error_stays(items@, i + 1, Seq::empty(), step);
                }
                return Err(e);
            },
        }
        i = i + 1;
    }
    proof {
        lemma_fold_whole(items@, Seq::empty(), step);
    }
    Ok(paths)
}

fn decode_url_filter(adv: &str, key: &str, fields: &Vec<(String, JsonValue)>) -> (r: Result<
    AdvertiserUrlFilter,
    ConfigError,
>)
    ensures
        match r {
            Ok(f) => fold_result(fields@, blank_filter(), filter_field_step(adv@, key@)) == Ok::<
                UrlFilterView,
                Seq<char>,
            >(f@),
            Err(e) => e is Message && fold_result(fields@, blank_filter(), filter_field_step(adv@, key@))
                == Err::<UrlFilterView, Seq<char>>(config_text(e)),
        },
{
    proof {
        reveal_strlit("host");
        reveal_strlit("paths");
    }
    let ghost step = filter_field_step(adv@, key@);
    let mut filter = AdvertiserUrlFilter { host: String::new(), paths: None };
    let mut i: usize = 0;
    assert(filter@ == blank_filter());
    assert(fields@.take(0) =~= Seq::<(String, JsonValue)>::empty());
    while i < fields.len()
        invariant
            i <= fields@.len(),
            step == filter_field_step(adv@, key@),
            fold_result(fields@.take(i as int), blank_filter(), step) == Ok::<UrlFilterView, Seq<char>>(filter@),
        decreases fields@.len() - i,
    {
        proof {
            lemma_fold_step(fields@, i as int, blank_filter(), step);
        }
        let name = to_lowercase(fields[i].0.as_str());
        let value = &fields[i].1;
        if str_eq(name.as_str(), "host") {
            match value {
                JsonValue::Str(h) => {
                    filter.host = h.clone();
                },
                _ => {
                    proof {
                        lemma_fold_error_stays(fields@, i + 1, blank_filter(), step);
                    }
                    return Err(
                        ConfigError::Message(placed("Invalid host for path declaration for ", adv, key)),
                    );
                },
            }
        } else if str_eq(name.as_str(), "paths") {
            match value {
                JsonValue::Array(items) => {
                    match decode_paths(adv, key, items) {
                        Ok(ps) => {
                            if ps.len() > 0 {
                                filter.paths = Some(ps);
                            }
                        },
                        Err(e) => {
                            proof {
                                lemma_fold_error_stays(fields@, i + 1, blank_filter(), step);
                            }
                            return Err(e);
                        },
                    }
                },
                _ => {
                    proof {
                        lemma_fold_error_stays(fields@, i + 1, blank_filter(), step);
                    }
                    return Err(
                        ConfigError::Message(
                            placed("missing list of path filters for path declaration for ", adv, key),
                        ),
                    );
                },
            }
        }
        i = i + 1;
    }
    proof {
        lemma_fold_whole(fields@, blank_filter(), step);
    }
    Ok(filter)
}

fn decode_country(adv: &str, key: &str, v: &JsonValue) -> (r: Result<Vec<AdvertiserUrlFilter>, ConfigError>)
    ensures
        match r {
            Ok(fs) => country_spec(adv@, key@, *v) == Ok::<Seq<UrlFilterView>, Seq<char>>(url_filters_view(fs@)),
            Err(e) => e is Message && country_spec(adv@, key@, *v) == Err::<Seq<UrlFilterView>, Seq<char>>(
                config_text(e),
            ),
        },
{
    let cands = match v {
        JsonValue::Array(c) => c,
        _ => {
            return Err(ConfigError::Message(placed("Invalid country information for ", adv, key)));
        },
    };
    let ghost step = candidate_step(adv@, key@);
    let mut filters: Vec<AdvertiserUrlFilter> = Vec::new();
    let mut i: usize = 0;
    assert(url_filters_view(filters@) =~= Seq::<UrlFilterView>::empty());
    assert(cands@.take(0) =~= Seq::<JsonValue>::empty());
    while i < cands.len()
        invariant
            i <= cands@.len(),
            *v == JsonValue::Array(*cands),
            step == candidate_step(adv@, key@),
            fold_result(cands@.take(i as int), Seq::empty(), step) == Ok::<Seq<UrlFilterView>, Seq<char>>(
                url_filters_view(filters@),
            ),
        decreases cands@.len() - i,
    {
        proof {
            lemma_fold_step(cands@, i as int, Seq::empty(), step);
        }
        let fields = match &cands[i] {
            JsonValue::Object(fields) => fields,
            _ => {
                proof {
                    lemma_fold_error_stays(cands@, i + 1, Seq::empty(), step);
                }
                return Err(ConfigError::Message(placed("Invalid advertiser info for ", adv, key)));
            },
        };
        match decode_url_filter(adv, key, fields) {
            Ok(f) => {
                let ghost before = filters@;
                filters.push(f);
                assert(url_filters_view(filters@) =~= url_filters_view(before).push(f@));
            },
            Err(e) => {
                proof {
                    lemma_fold_error_stays(cands@, i + 1, Seq::empty(), step);
                }
                return Err(e);
            },
        }
        i = i + 1;
    }
    proof {
        lemma_fold_whole(cands@, Seq::empty(), step);
    }
    Ok(filters)
}

fn decode_advertiser(adv: &str, v: &JsonValue) -> (r: Result<AdmAdvertiserFilterSettings, ConfigError>)
    ensures
        match r {
            Ok(a) => advertiser_spec(adv@, *v) == Ok::<AdvertiserView, Seq<char>>(a@),
            Err(e) => e is Message && advertiser_spec(adv@, *v) == Err::<AdvertiserView, Seq<char>>(config_text(e)),
        },
{
    proof {
        reveal_strlit("delete");
    }
    let members = match v {
        JsonValue::Object(m) => m,
        _ => {
            return Err(ConfigError::Message(concat("Invalid advertiser info ", adv)));
        },
    };
    let ghost step = advertiser_member_step(adv@);
    let mut countries: StrMap<Vec<AdvertiserUrlFilter>> = StrMap::new();
    let mut delete = false;
    let mut i: usize = 0;
    assert(countries_view(countries@) =~= Map::<Seq<char>, Seq<UrlFilterView>>::empty());
    assert(members@.take(0) =~= Seq::<(String, JsonValue)>::empty());
    while i < members.len()
        invariant
            i <= members@.len(),
            *v == JsonValue::Object(*members),
            step == advertiser_member_step(adv@),
            fold_result(members@.take(i as int), blank_advertiser(), step) == Ok::<AdvertiserView, Seq<char>>(
                AdvertiserView { countries: countries_view(countries@), delete },
            ),
        decreases members@.len() - i,
    {
        proof {
            lemma_fold_step(members@, i as int, blank_advertiser(), step);
        }
        let key = &members[i].0;
        let value = &members[i].1;
        let lower = to_lowercase(key.as_str());
        if str_eq(lower.as_str(), "delete") {
            delete = match value {
                JsonValue::Bool(b) => *b,
                _ => false,
            };
        } else if utf8_len_exceeds(key.as_str(), 2) {
        } else {
            match decode_country(adv, key.as_str(), value) {
                Ok(fs) => {
                    let ghost before = countries@;
                    let ghost fv = url_filters_view(fs@);
                    countries.insert(key.clone(), fs);
                    assert(countries_view(countries@) =~= countries_view(before).insert(key@, fv));
                },
                Err(e) => {
                    proof {
                        lemma_fold_error_stays(members@, i + 1, blank_advertiser(), step);
                    }
                    return Err(e);
                },
            }
        }
        i = i + 1;
    }
    proof {
        lemma_fold_whole(members@, blank_advertiser(), step);
    }
    Ok(AdmAdvertiserFilterSettings { countries, delete })
}

impl AdmFilter {
    /// The partner settings in a JSON text of the form
    /// `{"Example": {"US": [{"host": "www.example.com", "paths": [{"value": "/here",
    /// "matching": "exact"}]}], "delete": false}, ...}`, stored under the lower-cased
    /// advertiser names; see the spec functions above for each rule and each error.
    pub fn advertisers_from_string(settings_str: &str) -> (r: Result<StrMap<AdmAdvertiserFilterSettings>, ConfigError>)
        ensures
            match r {
                Ok(m) => advertisers_from_string_spec(settings_str@) == Ok::<
                    Map<Seq<char>, AdvertiserView>,
                    Seq<char>,
                >(advertisers_view(m@)),
                Err(e) => e is Message && advertisers_from_string_spec(settings_str@) == Err::<
                    Map<Seq<char>, AdvertiserView>,
                    Seq<char>,
                >(config_text(e)),
            },
    {
        proof {
            reveal_strlit("No ADM settings string specified");
            reveal_strlit("ADM Settings parse error: ");
            reveal_strlit("expected a JSON object");
        }
        if settings_str.is_empty() {
            return Err(ConfigError::Message(copy_str("No ADM settings string specified")));
        }
        let parsed = parse_json(settings_str);
        if let Ok(JsonValue::Object(members)) = &parsed {
            return Self::advertisers_from_members(members);
        }
        let why = match json_map_error(settings_str) {
            Some(m) => m,
            None => copy_str("expected a JSON object"),
        };
        Err(ConfigError::Message(concat("ADM Settings parse error: ", why.as_str())))
    }

    /// The partner settings that the members of a JSON object give (see
    /// `advertisers_from_members_spec`), stored under the lower-cased advertiser names.
    pub fn advertisers_from_members(members: &Vec<(String, JsonValue)>) -> (r: Result<
        StrMap<AdmAdvertiserFilterSettings>,
        ConfigError,
    >)
        ensures
            match r {
                Ok(m) => advertisers_from_members_spec(members@) == Ok::<
                    Map<Seq<char>, AdvertiserView>,
                    Seq<char>,
                >(advertisers_view(m@)),
                Err(e) => e is Message && advertisers_from_members_spec(members@) == Err::<
                    Map<Seq<char>, AdvertiserView>,
                    Seq<char>,
                >(config_text(e)),
            },
    {
        let ghost step = advertisers_step();
        let mut advertisers: StrMap<AdmAdvertiserFilterSettings> = StrMap::new();
        let mut i: usize = 0;
        assert(advertisers_view(advertisers@) =~= Map::<Seq<char>, AdvertiserView>::empty());
        assert(members@.take(0) =~= Seq::<(String, JsonValue)>::empty());
        while i < members.len()
            invariant
                i <= members@.len(),
                step == advertisers_step(),
                fold_result(members@.take(i as int), Map::empty(), step) == Ok::<
                    Map<Seq<char>, AdvertiserView>,
                    Seq<char>,
                >(advertisers_view(advertisers@)),
            decreases members@.len() - i,
        {
            proof {
                lemma_fold_step(members@, i as int, Map::empty(), step);
            }
            let name = &members[i].0;
            match decode_advertiser(name.as_str(), &members[i].1) {
                Ok(a) => {
                    let ghost before = advertisers@;
                    let ghost av = a@;
                    let lower = to_lowercase(name.as_str());
                    let ghost lv = lower@;
                    advertisers.insert(lower, a);
                    assert(advertisers_view(advertisers@) =~= advertisers_view(before).insert(lv, av));
                },
                Err(e) => {
                    proof {
                        lemma_fold_error_stays(members@, i + 1, Map::empty(), step);
                    }
                    return Err(e);
                },
            }
            i = i + 1;
        }
        proof {
            lemma_fold_whole(members@, Map::empty(), step);
        }
        Ok(advertisers)
    }
}


/// Whether exactly one of the two settings is given.
pub open spec fn one_of(a: Option<String>, b: Option<String>) -> bool {
    a is None != b is None
}

/// The empty filter defaults.
pub open spec fn no_defaults() -> DefaultsView {
    DefaultsView {
        advertiser_urls: Seq::empty(),
        impression_hosts: Seq::empty(),
        click_hosts: Seq::empty(),
        image_hosts: Seq::empty(),
        position: None,
        ignore_advertisers: None,
        ignore_dmas: None,
    }
}

/// The filter defaults of the settings: none where `adm_defaults` is not set, else
/// its JSON.
pub open spec fn defaults_of(settings: Settings) -> Result<DefaultsView, ()> {
    match settings.adm_defaults {
        None => Ok(no_defaults()),
        Some(t) => match serde_json_from_str(t@) {
            Ok(v) => defaults_json(v),
            Err(_) => Err(()),
        },
    }
}

/// Whether the partner settings are a cloud storage URL (`gs://...`).
pub open spec fn is_gs(source: Seq<char>) -> bool {
    "gs://"@.is_prefix_of(source)
}

/// The cloud storage URL of the partner settings, where they are one and it parses.
pub open spec fn source_url_of(source: Seq<char>) -> Option<ParsedUrl> {
    if is_gs(source) {
        match url_crate_parse(source) {
            Ok(u) => Some(u),
            Err(_) => None,
        }
    } else {
        None
    }
}

/// Whether the partner settings are not read from the settings text: they come from
/// cloud storage, or there are none and the service runs in debug mode.
pub open spec fn skips_partner_text(settings: Settings) -> bool {
    source_url_of(settings.adm_settings@) is Some || (settings.adm_settings@.len() == 0 && settings.debug)
}

/// The partners that the settings keep: those not marked for deletion, with their countries.
pub open spec fn kept_partners(m: Map<Seq<char>, AdvertiserView>) -> Map<Seq<char>, Map<Seq<char>, Seq<UrlFilterView>>> {
    Map::new(|k: Seq<char>| m.contains_key(k) && !m[k].delete, |k: Seq<char>| m[k].countries)
}

/// The lower-cased names of a JSON list (`"[]"` where the setting is not given), as a set.
pub open spec fn name_list_of(text: Option<String>) -> Result<Set<Seq<char>>, Seq<char>> {
    let t = unicode_lowercase(text_or(text, "[]"@));
    match serde_json_from_str(t) {
        Ok(v) => match string_list_spec(v) {
            Ok(names) => Ok(names.to_set()),
            Err(_) => Err(set_error_text(t)),
        },
        Err(_) => Err(set_error_text(t)),
    }
}

/// Why a text is no list of names: the debug text of the error of reading it as a set
/// of strings.
pub open spec fn set_error_text(text: Seq<char>) -> Seq<char> {
    match serde_json_string_set_error(text) {
        Some(m) => m,
        None => "expected a list of strings"@,
    }
}

/// The debug text of a `Message` configuration error.
pub open spec fn message_debug(m: Seq<char>) -> Seq<char> {
    "Message("@ + debug_quoted(m) + ")"@
}

/// The debug text of a configuration error.
pub open spec fn config_debug(e: ConfigError) -> Seq<char> {
    match e {
        ConfigError::Message(m) => message_debug(m@),
        ConfigError::NotFound(m) => "NotFound("@ + debug_quoted(m@) + ")"@,
    }
}

fn config_debug_string(e: &ConfigError) -> (r: String)
    ensures
        r@ == config_debug(*e),
{
    proof {
        reveal_strlit(")");
    }
    match e {
        ConfigError::Message(m) => {
            let q = debug_string(m.as_str());
            let a = concat("Message(", q.as_str());
            concat(a.as_str(), ")")
        },
        ConfigError::NotFound(m) => {
            let q = debug_string(m.as_str());
            let a = concat("NotFound(", q.as_str());
            concat(a.as_str(), ")")
        },
    }
}

fn name_list(text: &Option<String>, what: &str) -> (r: Result<StrSet, HandlerError>)
    ensures
        match r {
            Ok(s) => name_list_of(*text) == Ok::<Set<Seq<char>>, Seq<char>>(s@),
            Err(e) => name_list_of(*text) is Err && e.kind@ == KindView::Internal(what@ + name_list_of(*text)->Err_0),
        },
{
    proof {
        reveal_strlit("[]");
        reveal_strlit("expected a list of strings");
    }
    let raw = match text {
        Some(t) => t.clone(),
        None => copy_str("[]"),
    };
    let lower = to_lowercase(raw.as_str());
    if let Ok(v) = parse_json(lower.as_str()) {
        if let Some(s) = crate::adm::decode::decode_string_set(&v) {
            return Ok(s);
        }
    }
    let why = match json_string_set_error(lower.as_str()) {
        Some(m) => m,
        None => copy_str("expected a list of strings"),
    };
    let msg = concat(what, why.as_str());
    Err(HandlerError::internal(msg.as_str()))
}

/// Whether `s` begins with `gs://`.
fn gs_source(s: &str) -> (r: bool)
    ensures
        r == is_gs(s@),
{
    crate::text::starts_with(s, "gs://")
}

/// The partners of a settings map that are not marked for deletion.
fn keep_partners(m: StrMap<AdmAdvertiserFilterSettings>) -> (r: AdmAdvertiserSettings)
    ensures
        partners_view(r.adm_advertisers@) == kept_partners(advertisers_view(m@)),
{
    let ghost mv = m@;
    let mut entries = m.into_entries();
    let ghost all = entries@;
    let total = entries.len();
    assert(all.len() == total);
    let mut out: StrMap<StrMap<Vec<AdvertiserUrlFilter>>> = StrMap::new();
    let mut i: usize = 0;
    assert(all.skip(0) =~= all);
    assert(partners_view(out@) =~= kept_partners(advertisers_view(map_of(all.take(0))))) by {
        assert(all.take(0) =~= Seq::<(String, AdmAdvertiserFilterSettings)>::empty());
        assert(map_of(all.take(0)) =~= Map::<Seq<char>, AdmAdvertiserFilterSettings>::empty());
    }
    while entries.len() > 0
        invariant
            i + entries@.len() == all.len(),
            all.len() <= usize::MAX,
            entries@ == all.skip(i as int),
            crate::strmap::distinct_keys(all),
            map_of(all) == mv,
            partners_view(out@) == kept_partners(advertisers_view(map_of(all.take(i as int)))),
        decreases entries@.len(),
    {
        let (name, adv) = entries.remove(0);
        assert(all.skip(i as int)[0] == all[i as int]);
        assert(entries@ =~= all.skip(i + 1));
        let ghost prefix = all.take(i as int);
        assert(all.take(i + 1).drop_last() =~= prefix);
        assert(all.take(i + 1).last() == all[i as int]);
        proof {
            crate::strmap::lemma_map_of_dom(prefix, name@);
            if map_of(prefix).contains_key(name@) {
                let k = choose|k: int| 0 <= k < prefix.len() && (#[trigger] prefix[k]).0@ == name@;
                assert(prefix[k] == all[k]);
                assert(false);
            }
        }
        let ghost before = out@;
        let ghost av = adv@;
        assert(map_of(all.take(i + 1)) == map_of(prefix).insert(name@, adv));
        assert(advertisers_view(map_of(all.take(i + 1))) =~= advertisers_view(map_of(prefix)).insert(name@, av));
        if !adv.delete {
            let ghost cv = adv@.countries;
            out.insert(name, adv.countries);
            assert(partners_view(out@) =~= partners_view(before).insert(name@, cv));
            assert(kept_partners(advertisers_view(map_of(prefix)).insert(name@, av)) =~= kept_partners(
                advertisers_view(map_of(prefix)),
            ).insert(name@, cv));
        } else {
            assert(kept_partners(advertisers_view(map_of(prefix)).insert(name@, av)) =~= kept_partners(
                advertisers_view(map_of(prefix)),
            ));
        }
        i = i + 1;
    }
    assert(all.take(all.len() as int) =~= all);
    AdmAdvertiserSettings { adm_advertisers: out }
}

impl AdmFilter {
    /// The partner tile filter that the settings describe. `settings_str` is the text
    /// of the partner settings: the contents of the file that `adm_settings` names,
    /// where it names one, else `adm_settings` itself. `now` (seconds since the
    /// epoch) is recorded as the time of the last update for cloud-stored settings.
    ///
    /// Fails where only one of `adm_sub1` and `adm_partner_id` (or of their mobile
    /// counterparts) is given, where the defaults, the partner settings (unless they
    /// are read from cloud storage later) or the ignore or legacy lists do not parse.
    pub fn from_settings(settings: &Settings, settings_str: &str, now: i64) -> (r: HandlerResult<AdmFilter>)
        ensures
            r is Ok <==> {
                &&& !one_of(settings.adm_sub1, settings.adm_partner_id)
                &&& !one_of(settings.adm_mobile_sub1, settings.adm_mobile_partner_id)
                &&& defaults_of(*settings) is Ok
                &&& (skips_partner_text(*settings) || advertisers_from_string_spec(settings_str@) is Ok)
                &&& name_list_of(settings.adm_ignore_advertisers) is Ok
                &&& name_list_of(settings.adm_has_legacy_image) is Ok
            },
            one_of(settings.adm_sub1, settings.adm_partner_id) ==> (r matches Err(e) && e.kind@ == KindView::Internal(
                "Missing argument args for adm_sub1 or adm_partner_id"@,
            )),
            !one_of(settings.adm_sub1, settings.adm_partner_id) && one_of(
                settings.adm_mobile_sub1,
                settings.adm_mobile_partner_id,
            ) ==> (r matches Err(e) && e.kind@ == KindView::Internal(
                "Missing argument args for adm_mobile_sub1 or adm_mobile_partner_id"@,
            )),
            r matches Err(e) ==> e.kind@ is Internal,
            !one_of(settings.adm_sub1, settings.adm_partner_id) && !one_of(
                settings.adm_mobile_sub1,
                settings.adm_mobile_partner_id,
            ) && settings.adm_defaults is Some ==> match serde_json_from_str(settings.adm_defaults->Some_0@) {
                Err(m) => r matches Err(e) && e.kind@ == KindView::Internal(m),
                Ok(v) => defaults_json(v) is Err ==> (r matches Err(e) && e.kind@ == KindView::Internal(
                    "Invalid ADM defaults"@,
                )),
            },
            !one_of(settings.adm_sub1, settings.adm_partner_id) && !one_of(
                settings.adm_mobile_sub1,
                settings.adm_mobile_partner_id,
            ) && defaults_of(*settings) is Ok && (skips_partner_text(*settings) || advertisers_from_string_spec(
                settings_str@,
            ) is Ok) ==> {
                &&& name_list_of(settings.adm_ignore_advertisers) matches Err(m) ==> (r matches Err(e) && e.kind@
                    == KindView::Internal("Invalid ADM Ignore list specification: "@ + m))
                &&& name_list_of(settings.adm_ignore_advertisers) is Ok ==> (name_list_of(
                    settings.adm_has_legacy_image,
                ) matches Err(m) ==> (r matches Err(e) && e.kind@ == KindView::Internal(
                    "Invalid ADM Legacy list specification: "@ + m,
                )))
            },
            !one_of(settings.adm_sub1, settings.adm_partner_id) && !one_of(
                settings.adm_mobile_sub1,
                settings.adm_mobile_partner_id,
            ) && defaults_of(*settings) is Ok && !skips_partner_text(*settings) && advertisers_from_string_spec(
                settings_str@,
            ) is Err ==> (r matches Err(e) && e.kind@ == KindView::Internal(
                "Configuration error reading AdmFilter advertisers: "@ + message_debug(
                    advertisers_from_string_spec(settings_str@)->Err_0,
                ),
            )),
            r matches Ok(f) ==> {
                &&& f.defaults@ == defaults_of(*settings)->Ok_0
                &&& partners_view(f.advertiser_filters.adm_advertisers@) == if skips_partner_text(*settings) {
                    Map::empty()
                } else {
                    kept_partners(advertisers_from_string_spec(settings_str@)->Ok_0)
                }
                &&& f.ignore_list@ == name_list_of(settings.adm_ignore_advertisers)->Ok_0
                &&& f.legacy_list@ == name_list_of(settings.adm_has_legacy_image)->Ok_0
                &&& f.all_include_regions@ == Set::<Seq<char>>::empty()
                &&& f.source == Some(settings.adm_settings)
                &&& f.source_url == source_url_of(settings.adm_settings@)
                &&& f.last_updated == if is_gs(settings.adm_settings@) {
                    Some(now)
                } else {
                    None
                }
                &&& f.refresh_rate_secs == settings.adm_refresh_rate_secs
                &&& f.excluded_countries_200 == settings.excluded_countries_200
            },
    {
        if settings.adm_sub1.is_none() != settings.adm_partner_id.is_none() {
            return Err(HandlerError::internal("Missing argument args for adm_sub1 or adm_partner_id"));
        }
        if settings.adm_mobile_sub1.is_none() != settings.adm_mobile_partner_id.is_none() {
            return Err(HandlerError::internal("Missing argument args for adm_mobile_sub1 or adm_mobile_partner_id"));
        }
        let source = settings.adm_settings.clone();
        let gs = gs_source(source.as_str());
        let source_url = if gs {
            match ParsedUrl::parse(source.as_str()) {
                Ok(u) => Some(u),
                Err(_) => None,
            }
        } else {
            None
        };
        let defaults = match &settings.adm_defaults {
            Some(text) => {
                let v = match parse_json(text.as_str()) {
                    Ok(v) => v,
                    Err(m) => {
                        return Err(HandlerError::internal(m.as_str()));
                    },
                };
                match AdmDefaults::from_json_value(&v) {
                    Some(d) => d,
                    None => {
                        return Err(HandlerError::internal("Invalid ADM defaults"));
                    },
                }
            },
            None => {
                let d = AdmDefaults::empty();
                assert(url_filters_view(d.advertiser_urls@) =~= Seq::<UrlFilterView>::empty());
                assert(crate::adm::filter::hosts_view(d.impression_hosts@) =~= Seq::<Seq<Seq<char>>>::empty());
                assert(crate::adm::filter::hosts_view(d.click_hosts@) =~= Seq::<Seq<Seq<char>>>::empty());
                assert(crate::adm::filter::hosts_view(d.image_hosts@) =~= Seq::<Seq<Seq<char>>>::empty());
                d
            },
        };
        let advertiser_filters = if source_url.is_some() || (settings.adm_settings.as_str().is_empty()
            && settings.debug) {
            let m: StrMap<StrMap<Vec<AdvertiserUrlFilter>>> = StrMap::new();
            assert(partners_view(m@) =~= Map::<Seq<char>, Map<Seq<char>, Seq<UrlFilterView>>>::empty());
            AdmAdvertiserSettings { adm_advertisers: m }
        } else {
            match AdmFilter::advertisers_from_string(settings_str) {
                Ok(m) => keep_partners(m),
                Err(e) => {
                    let d = config_debug_string(&e);
                    let msg = concat("Configuration error reading AdmFilter advertisers: ", d.as_str());
                    proof {
                        assert(e is Message);
                    }
                    return Err(HandlerError::internal(msg.as_str()));
                },
            }
        };
        let ignore_list = name_list(&settings.adm_ignore_advertisers, "Invalid ADM Ignore list specification: ")?;
        let legacy_list = name_list(&settings.adm_has_legacy_image, "Invalid ADM Legacy list specification: ")?;
        Ok(AdmFilter {
            advertiser_filters,
            ignore_list,
            legacy_list,
            all_include_regions: StrSet::new(),
            last_updated: if gs {
                Some(now)
            } else {
                None
            },
            source: Some(source),
            source_url,
            refresh_rate_secs: settings.adm_refresh_rate_secs,
            defaults,
            excluded_countries_200: settings.excluded_countries_200,
        })
    }
}


impl AdmFilter {
    /// The bucket and object of partner settings stored in cloud storage: an error
    /// where the URL is not a `gs` URL or has no bucket name.
    pub fn settings_bucket(settings_bucket: &ParsedUrl) -> (r: Result<(String, String), ConfigError>)
        ensures
            settings_bucket.scheme@ != "gs"@ ==> (r matches Err(ConfigError::Message(m)) && m@ == "Improper bucket URL: "@
                + debug_quoted(settings_bucket.serialization@)),
            settings_bucket.scheme@ == "gs"@ ==> match crate::web_url::bucket_object(*settings_bucket) {
                Some((h, p)) => r matches Ok((rh, rp)) && rh@ == h && rp@ == p,
                None => r matches Err(ConfigError::Message(m)) && m@ == "Invalid adm settings bucket name "@
                    + settings_bucket.serialization@,
            },
    {
        if !str_eq(settings_bucket.scheme.as_str(), "gs") {
            let q = debug_string(settings_bucket.serialization.as_str());
            return Err(ConfigError::Message(concat("Improper bucket URL: ", q.as_str())));
        }
        match crate::web_url::bucket_location(settings_bucket) {
            Some(loc) => Ok(loc),
            None => Err(
                ConfigError::Message(concat("Invalid adm settings bucket name ", settings_bucket.serialization.as_str())),
            ),
        }
    }
}

} // verus!
