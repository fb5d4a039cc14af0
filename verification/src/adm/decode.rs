//! The JSON forms of the filter defaults and of the partners' URL filters: objects
//! whose members are named as the fields, unknown members ignored, optional members
//! missing or `null`, and lists of host names broken into labels.
use vstd::prelude::*;

use crate::adm::filter::AdmAdvertiserSettings;
use crate::adm::settings::{
    break_hosts, countries_view, path_filters_view, url_filters_view, AdmDefaults, AdvertiserUrlFilter, PathFilter,
    PathMatching, UrlFilterView,
};
use crate::json::{
    fold_result, lemma_fold_error_stays, lemma_fold_step, lemma_fold_whole, member_index, obj_get,
    JsonValue,
};
use crate::strmap::{StrMap, StrSet};
use crate::text::{split_on, str_eq, strs_view};

verus! {

/// A member that may be missing or `null`.
pub open spec fn present(v: Option<JsonValue>) -> bool {
    match v {
        None => false,
        Some(JsonValue::Null) => false,
        Some(_) => true,
    }
}

/// A list of texts.
pub open spec fn string_step() -> spec_fn(Seq<Seq<char>>, JsonValue) -> Result<Seq<Seq<char>>, ()> {
    |acc: Seq<Seq<char>>, v: JsonValue|
        match v {
            JsonValue::Str(s) => Ok(acc.push(s@)),
            _ => Err(()),
        }
}

/// The texts of a JSON list of strings.
pub open spec fn string_list_spec(v: JsonValue) -> Result<Seq<Seq<char>>, ()> {
    match v {
        JsonValue::Array(items) => fold_result(items@, Seq::empty(), string_step()),
        _ => Err(()),
    }
}

/// A list of host names, each broken into labels.
pub open spec fn host_step() -> spec_fn(Seq<Seq<Seq<char>>>, JsonValue) -> Result<Seq<Seq<Seq<char>>>, ()> {
    |acc: Seq<Seq<Seq<char>>>, v: JsonValue|
        match v {
            JsonValue::Str(s) => Ok(acc.push(split_on(s@, '.'))),
            _ => Err(()),
        }
}

/// The labels of each host name of a JSON list of strings.
pub open spec fn host_list_spec(v: JsonValue) -> Result<Seq<Seq<Seq<char>>>, ()> {
    match v {
        JsonValue::Array(items) => fold_result(items@, Seq::empty(), host_step()),
        _ => Err(()),
    }
}

/// A byte-sized number.
pub open spec fn byte_of(v: JsonValue) -> Option<u8> {
    match v {
        JsonValue::Number(Some(n), _) => if n <= 255 {
            Some(n as u8)
        } else {
            None
        },
        _ => None,
    }
}

/// A list of byte-sized numbers.
pub open spec fn byte_step() -> spec_fn(Seq<u8>, JsonValue) -> Result<Seq<u8>, ()> {
    |acc: Seq<u8>, v: JsonValue|
        match byte_of(v) {
            Some(b) => Ok(acc.push(b)),
            None => Err(()),
        }
}

/// The numbers of a JSON list of byte-sized numbers.
pub open spec fn byte_list_spec(v: JsonValue) -> Result<Seq<u8>, ()> {
    match v {
        JsonValue::Array(items) => fold_result(items@, Seq::empty(), byte_step()),
        _ => Err(()),
    }
}

/// A path filter object: `value` (a string) and `matching` (`"prefix"` or `"exact"`).
pub open spec fn path_filter_json(v: JsonValue) -> Result<(Seq<char>, PathMatching), ()> {
    match v {
        JsonValue::Object(m) => match (obj_get(m@, "value"@), obj_get(m@, "matching"@)) {
            (Some(JsonValue::Str(value)), Some(JsonValue::Str(matching))) => if matching@ == "prefix"@ {
                Ok((value@, PathMatching::Prefix))
            } else if matching@ == "exact"@ {
                Ok((value@, PathMatching::Exact))
            } else {
                Err(())
            },
            _ => Err(()),
        },
        _ => Err(()),
    }
}

/// A list of path filter objects.
pub open spec fn path_filter_step() -> spec_fn(Seq<(Seq<char>, PathMatching)>, JsonValue) -> Result<
    Seq<(Seq<char>, PathMatching)>,
    (),
> {
    |acc: Seq<(Seq<char>, PathMatching)>, v: JsonValue|
        match path_filter_json(v) {
            Ok(p) => Ok(acc.push(p)),
            Err(e) => Err(e),
        }
}

/// A URL filter object: `host` (a string) and optionally `paths` (a list of path
/// filter objects).
pub open spec fn url_filter_json(v: JsonValue) -> Result<UrlFilterView, ()> {
    match v {
        JsonValue::Object(m) => match obj_get(m@, "host"@) {
            Some(JsonValue::Str(host)) => if !present(obj_get(m@, "paths"@)) {
                Ok(UrlFilterView { host: host@, paths: None })
            } else {
                match obj_get(m@, "paths"@) {
                    Some(JsonValue::Array(items)) => match fold_result(items@, Seq::empty(), path_filter_step()) {
                        Ok(ps) => Ok(UrlFilterView { host: host@, paths: Some(ps) }),
                        Err(e) => Err(e),
                    },
                    _ => Err(()),
                }
            },
            _ => Err(()),
        },
        _ => Err(()),
    }
}

/// A list of URL filter objects.
pub open spec fn url_filter_step() -> spec_fn(Seq<UrlFilterView>, JsonValue) -> Result<Seq<UrlFilterView>, ()> {
    |acc: Seq<UrlFilterView>, v: JsonValue|
        match url_filter_json(v) {
            Ok(f) => Ok(acc.push(f)),
            Err(e) => Err(e),
        }
}

/// The URL filters of a JSON list.
pub open spec fn url_filter_list_spec(v: JsonValue) -> Result<Seq<UrlFilterView>, ()> {
    match v {
        JsonValue::Array(items) => fold_result(items@, Seq::empty(), url_filter_step()),
        _ => Err(()),
    }
}

/// The filter defaults as values.
pub struct DefaultsView {
    pub advertiser_urls: Seq<UrlFilterView>,
    pub impression_hosts: Seq<Seq<Seq<char>>>,
    pub click_hosts: Seq<Seq<Seq<char>>>,
    pub image_hosts: Seq<Seq<Seq<char>>>,
    pub position: Option<u8>,
    pub ignore_advertisers: Option<Seq<Seq<char>>>,
    pub ignore_dmas: Option<Seq<u8>>,
}

impl View for AdmDefaults {
    type V = DefaultsView;

    open spec fn view(&self) -> DefaultsView {
        DefaultsView {
            advertiser_urls: url_filters_view(self.advertiser_urls@),
            impression_hosts: crate::adm::filter::hosts_view(self.impression_hosts@),
            click_hosts: crate::adm::filter::hosts_view(self.click_hosts@),
            image_hosts: crate::adm::filter::hosts_view(self.image_hosts@),
            position: self.position,
            ignore_advertisers: match self.ignore_advertisers {
                Some(v) => Some(strs_view(v@)),
                None => None,
            },
            ignore_dmas: match self.ignore_dmas {
                Some(v) => Some(v@),
                None => None,
            },
        }
    }
}

/// A member that defaults to an empty list where it is missing.
pub open spec fn list_or_empty<T>(m: Option<JsonValue>, decode: spec_fn(JsonValue) -> Result<Seq<T>, ()>) -> Result<
    Seq<T>,
    (),
> {
    match m {
        None => Ok(Seq::empty()),
        Some(v) => decode(v),
    }
}

/// A member that is `None` where it is missing or `null`.
pub open spec fn optional<T>(m: Option<JsonValue>, decode: spec_fn(JsonValue) -> Result<T, ()>) -> Result<Option<T>, ()> {
    if !present(m) {
        Ok(None)
    } else {
        match decode(m.unwrap()) {
            Ok(x) => Ok(Some(x)),
            Err(e) => Err(e),
        }
    }
}

/// The byte-sized number of a JSON value.
pub open spec fn byte_json(v: JsonValue) -> Result<u8, ()> {
    match byte_of(v) {
        Some(b) => Ok(b),
        None => Err(()),
    }
}

/// The filter defaults of a JSON object: `advertiser_urls`, `impression_hosts`,
/// `click_hosts` and `image_hosts` (empty where missing), `position`,
/// `ignore_advertisers` and `ignore_dmas` (none where missing or `null`).
pub open spec fn defaults_json(v: JsonValue) -> Result<DefaultsView, ()> {
    match v {
        JsonValue::Object(m) => {
            let au = list_or_empty(obj_get(m@, "advertiser_urls"@), |x: JsonValue| url_filter_list_spec(x));
            let ih = list_or_empty(obj_get(m@, "impression_hosts"@), |x: JsonValue| host_list_spec(x));
            let ch = list_or_empty(obj_get(m@, "click_hosts"@), |x: JsonValue| host_list_spec(x));
            let mh = list_or_empty(obj_get(m@, "image_hosts"@), |x: JsonValue| host_list_spec(x));
            let pos = optional(obj_get(m@, "position"@), |x: JsonValue| byte_json(x));
            let ia = optional(obj_get(m@, "ignore_advertisers"@), |x: JsonValue| string_list_spec(x));
            let id = optional(obj_get(m@, "ignore_dmas"@), |x: JsonValue| byte_list_spec(x));
            if au is Ok && ih is Ok && ch is Ok && mh is Ok && pos is Ok && ia is Ok && id is Ok {
                Ok(
                    DefaultsView {
                        advertiser_urls: au->Ok_0,
                        impression_hosts: ih->Ok_0,
                        click_hosts: ch->Ok_0,
                        image_hosts: mh->Ok_0,
                        position: pos->Ok_0,
                        ignore_advertisers: ia->Ok_0,
                        ignore_dmas: id->Ok_0,
                    },
                )
            } else {
                Err(())
            }
        },
        _ => Err(()),
    }
}

/// The texts of a JSON list of strings.
pub fn decode_strings(v: &JsonValue) -> (r: Option<Vec<String>>)
    ensures
        match r {
            Some(s) => string_list_spec(*v) == Ok::<Seq<Seq<char>>, ()>(strs_view(s@)),
            None => string_list_spec(*v) is Err,
        },
{
    let items = match v {
        JsonValue::Array(items) => items,
        _ => {
            return None;
        },
    };
    let ghost step = string_step();
    let mut out: Vec<String> = Vec::new();
    let mut i: usize = 0;
    assert(strs_view(out@) =~= Seq::<Seq<char>>::empty());
    assert(items@.take(0) =~= Seq::<JsonValue>::empty());
    while i < items.len()
        invariant
            i <= items@.len(),
            *v == JsonValue::Array(*items),
            step == string_step(),
            fold_result(items@.take(i as int), Seq::empty(), step) == Ok::<Seq<Seq<char>>, ()>(strs_view(out@)),
        decreases items@.len() - i,
    {
        proof {
            lemma_fold_step(items@, i as int, Seq::empty(), step);
        }
        match &items[i] {
            JsonValue::Str(s) => {
                let ghost before = out@;
                out.push(s.clone());
                assert(strs_view(out@) =~= strs_view(before).push(s@));
            },
            _ => {
                proof {
                    lemma_fold_error_stays(items@, i + 1, Seq::empty(), step);
                }
                return None;
            },
        }
        i = i + 1;
    }
    proof {
        lemma_fold_whole(items@, Seq::empty(), step);
    }
    Some(out)
}

/// The texts of a JSON list of strings, as a set.
pub fn decode_string_set(v: &JsonValue) -> (r: Option<StrSet>)
    ensures
        match r {
            Some(s) => string_list_spec(*v) is Ok && s@ == string_list_spec(*v)->Ok_0.to_set(),
            None => string_list_spec(*v) is Err,
        },
{
    let items = match decode_strings(v) {
        Some(items) => items,
        None => {
            return None;
        },
    };
    let ghost all = strs_view(items@);
    let mut set = StrSet::new();
    let mut i: usize = 0;
    while i < items.len()
        invariant
            i <= items@.len(),
            all == strs_view(items@),
            set@ == all.take(i as int).to_set(),
        decreases items@.len() - i,
    {
        let ghost before = set@;
        set.insert(items[i].clone());
        assert(all.take(i + 1) =~= all.take(i as int).push(all[i as int]));
        assert(all.take(i + 1).to_set() =~= all.take(i as int).to_set().insert(all[i as int])) by {
            crate::text::lemma_take_to_set(all, i as int);
        }
        i = i + 1;
    }
    assert(all.take(items@.len() as int) =~= all);
    Some(set)
}

/// The labels of each host name of a JSON list of strings.
pub fn decode_hosts(v: &JsonValue) -> (r: Option<Vec<Vec<String>>>)
    ensures
        match r {
            Some(h) => host_list_spec(*v) == Ok::<Seq<Seq<Seq<char>>>, ()>(crate::adm::filter::hosts_view(h@)),
            None => host_list_spec(*v) is Err,
        },
{
    let items = match v {
        JsonValue::Array(items) => items,
        _ => {
            return None;
        },
    };
    let ghost step = host_step();
    let mut out: Vec<Vec<String>> = Vec::new();
    let mut i: usize = 0;
    assert(crate::adm::filter::hosts_view(out@) =~= Seq::<Seq<Seq<char>>>::empty());
    assert(items@.take(0) =~= Seq::<JsonValue>::empty());
    while i < items.len()
        invariant
            i <= items@.len(),
            *v == JsonValue::Array(*items),
            step == host_step(),
            fold_result(items@.take(i as int), Seq::empty(), step) == Ok::<Seq<Seq<Seq<char>>>, ()>(
                crate::adm::filter::hosts_view(out@),
            ),
        decreases items@.len() - i,
    {
        proof {
            lemma_fold_step(items@, i as int, Seq::empty(), step);
        }
        match &items[i] {
            JsonValue::Str(s) => {
                let ghost before = out@;
                let labels = break_hosts(s.clone());
                out.push(labels);
                assert(crate::adm::filter::hosts_view(out@) =~= crate::adm::filter::hosts_view(before).push(
                    split_on(s@, '.'),
                ));
            },
            _ => {
                proof {
                    lemma_fold_error_stays(items@, i + 1, Seq::empty(), step);
                }
                return None;
            },
        }
        i = i + 1;
    }
    proof {
        lemma_fold_whole(items@, Seq::empty(), step);
    }
    Some(out)
}

/// The numbers of a JSON list of byte-sized numbers.
pub fn decode_bytes(v: &JsonValue) -> (r: Option<Vec<u8>>)
    ensures
        match r {
            Some(b) => byte_list_spec(*v) == Ok::<Seq<u8>, ()>(b@),
            None => byte_list_spec(*v) is Err,
        },
{
    let items = match v {
        JsonValue::Array(items) => items,
        _ => {
            return None;
        },
    };
    let ghost step = byte_step();
    let mut out: Vec<u8> = Vec::new();
    let mut i: usize = 0;
    assert(items@.take(0) =~= Seq::<JsonValue>::empty());
    while i < items.len()
        invariant
            i <= items@.len(),
            *v == JsonValue::Array(*items),
            step == byte_step(),
            fold_result(items@.take(i as int), Seq::empty(), step) == Ok::<Seq<u8>, ()>(out@),
        decreases items@.len() - i,
    {
        proof {
            lemma_fold_step(items@, i as int, Seq::empty(), step);
        }
        match decode_byte(&items[i]) {
            Some(b) => {
                out.push(b);
            },
            None => {
                proof {
                    lemma_fold_error_stays(items@, i + 1, Seq::empty(), step);
                }
                return None;
            },
        }
        i = i + 1;
    }
    proof {
        lemma_fold_whole(items@, Seq::empty(), step);
    }
    Some(out)
}

/// A byte-sized number.
pub fn decode_byte(v: &JsonValue) -> (r: Option<u8>)
    ensures
        r == byte_of(*v),
{
    match v {
        JsonValue::Number(Some(n), _) => if *n <= 255 {
            Some(*n as u8)
        } else {
            None
        },
        _ => None,
    }
}

/// A path filter object.
pub fn decode_path_filter(v: &JsonValue) -> (r: Option<PathFilter>)
    ensures
        match r {
            Some(p) => path_filter_json(*v) == Ok::<(Seq<char>, PathMatching), ()>(p@),
            None => path_filter_json(*v) is Err,
        },
{
    proof {
        reveal_strlit("value");
        reveal_strlit("matching");
        reveal_strlit("prefix");
        reveal_strlit("exact");
        assert("exact"@[0] != "prefix"@[0]);
    }
    let m = match v {
        JsonValue::Object(m) => m,
        _ => {
            return None;
        },
    };
    let value = match member_index(m, "value") {
        Some(i) => match &m[i].1 {
            JsonValue::Str(s) => s,
            _ => {
                return None;
            },
        },
        None => {
            return None;
        },
    };
    let matching = match member_index(m, "matching") {
        Some(i) => match &m[i].1 {
            JsonValue::Str(s) => s,
            _ => {
                return None;
            },
        },
        None => {
            return None;
        },
    };
    if str_eq(matching.as_str(), "prefix") {
        Some(PathFilter { value: value.clone(), matching: PathMatching::Prefix })
    } else if str_eq(matching.as_str(), "exact") {
        Some(PathFilter { value: value.clone(), matching: PathMatching::Exact })
    } else {
        None
    }
}

/// A URL filter object.
pub fn decode_url_filter(v: &JsonValue) -> (r: Option<AdvertiserUrlFilter>)
    ensures
        match r {
            Some(f) => url_filter_json(*v) == Ok::<UrlFilterView, ()>(f@),
            None => url_filter_json(*v) is Err,
        },
{
    proof {
        reveal_strlit("host");
        reveal_strlit("paths");
    }
    let m = match v {
        JsonValue::Object(m) => m,
        _ => {
            return None;
        },
    };
    let host = match member_index(m, "host") {
        Some(i) => match &m[i].1 {
            JsonValue::Str(s) => s.clone(),
            _ => {
                return None;
            },
        },
        None => {
            return None;
        },
    };
    let items = match member_index(m, "paths") {
        None => {
            return Some(AdvertiserUrlFilter { host, paths: None });
        },
        Some(i) => match &m[i].1 {
            JsonValue::Null => {
                return Some(AdvertiserUrlFilter { host, paths: None });
            },
            JsonValue::Array(items) => items,
            _ => {
                return None;
            },
        },
    };
    let ghost step = path_filter_step();
    let mut paths: Vec<PathFilter> = Vec::new();
    let mut i: usize = 0;
    assert(path_filters_view(paths@) =~= Seq::<(Seq<char>, PathMatching)>::empty());
    assert(items@.take(0) =~= Seq::<JsonValue>::empty());
    assert(url_filter_json(*v) == match fold_result(items@, Seq::empty(), step) {
        Ok(ps) => Ok(UrlFilterView { host: host@, paths: Some(ps) }),
        Err(e) => Err(e),
    });
    while i < items.len()
        invariant
            i <= items@.len(),
            step == path_filter_step(),
            url_filter_json(*v) == match fold_result(items@, Seq::empty(), step) {
                Ok(ps) => Ok(UrlFilterView { host: host@, paths: Some(ps) }),
                Err(e) => Err::<UrlFilterView, ()>(e),
            },
            fold_result(items@.take(i as int), Seq::empty(), step) == Ok::<Seq<(Seq<char>, PathMatching)>, ()>(
                path_filters_view(paths@),
            ),
        decreases items@.len() - i,
    {
        proof {
            lemma_fold_step(items@, i as int, Seq::empty(), step);
        }
        match decode_path_filter(&items[i]) {
            Some(p) => {
                let ghost before = paths@;
                paths.push(p);
                assert(path_filters_view(paths@) =~= path_filters_view(before).push(p@));
            },
            None => {
                proof {
                    lemma_fold_error_stays(items@, i + 1, Seq::empty(), step);
                }
                return None;
            },
        }
        i = i + 1;
    }
    proof {
        lemma_fold_whole(items@, Seq::empty(), step);
    }
    Some(AdvertiserUrlFilter { host, paths: Some(paths) })
}

/// The URL filters of a JSON list.
pub fn decode_url_filters(v: &JsonValue) -> (r: Option<Vec<AdvertiserUrlFilter>>)
    ensures
        match r {
            Some(fs) => url_filter_list_spec(*v) == Ok::<Seq<UrlFilterView>, ()>(url_filters_view(fs@)),
            None => url_filter_list_spec(*v) is Err,
        },
{
    let items = match v {
        JsonValue::Array(items) => items,
        _ => {
            return None;
        },
    };
    let ghost step = url_filter_step();
    let mut out: Vec<AdvertiserUrlFilter> = Vec::new();
    let mut i: usize = 0;
    assert(url_filters_view(out@) =~= Seq::<UrlFilterView>::empty());
    assert(items@.take(0) =~= Seq::<JsonValue>::empty());
    while i < items.len()
        invariant
            i <= items@.len(),
            *v == JsonValue::Array(*items),
            step == url_filter_step(),
            fold_result(items@.take(i as int), Seq::empty(), step) == Ok::<Seq<UrlFilterView>, ()>(
                url_filters_view(out@),
            ),
        decreases items@.len() - i,
    {
        proof {
            lemma_fold_step(items@, i as int, Seq::empty(), step);
        }
        match decode_url_filter(&items[i]) {
            Some(f) => {
                let ghost before = out@;
                out.push(f);
                assert(url_filters_view(out@) =~= url_filters_view(before).push(f@));
            },
            None => {
                proof {
                    lemma_fold_error_stays(items@, i + 1, Seq::empty(), step);
                }
                return None;
            },
        }
        i = i + 1;
    }
    proof {
        lemma_fold_whole(items@, Seq::empty(), step);
    }
    Some(out)
}

impl AdmDefaults {
    /// The filter defaults of a JSON document (see `defaults_json`).
    pub fn from_json_value(v: &JsonValue) -> (r: Option<AdmDefaults>)
        ensures
            match r {
                Some(d) => defaults_json(*v) == Ok::<DefaultsView, ()>(d@),
                None => defaults_json(*v) is Err,
            },
    {
        proof {
            reveal_strlit("advertiser_urls");
            reveal_strlit("impression_hosts");
            reveal_strlit("click_hosts");
            reveal_strlit("image_hosts");
            reveal_strlit("position");
            reveal_strlit("ignore_advertisers");
            reveal_strlit("ignore_dmas");
        }
        let m = match v {
            JsonValue::Object(m) => m,
            _ => {
                return None;
            },
        };
        let advertiser_urls = match member_index(m, "advertiser_urls") {
            None => Vec::new(),
            Some(i) => match decode_url_filters(&m[i].1) {
                Some(x) => x,
                None => {
                    return None;
                },
            },
        };
        let impression_hosts = match member_index(m, "impression_hosts") {
            None => Vec::new(),
            Some(i) => match decode_hosts(&m[i].1) {
                Some(x) => x,
                None => {
                    return None;
                },
            },
        };
        let click_hosts = match member_index(m, "click_hosts") {
            None => Vec::new(),
            Some(i) => match decode_hosts(&m[i].1) {
                Some(x) => x,
                None => {
                    return None;
                },
            },
        };
        let image_hosts = match member_index(m, "image_hosts") {
            None => Vec::new(),
            Some(i) => match decode_hosts(&m[i].1) {
                Some(x) => x,
                None => {
                    return None;
                },
            },
        };
        let position = match member_index(m, "position") {
            None => None,
            Some(i) => match &m[i].1 {
                JsonValue::Null => None,
                other => match decode_byte(other) {
                    Some(b) => Some(b),
                    None => {
                        return None;
                    },
                },
            },
        };
        let ignore_advertisers = match member_index(m, "ignore_advertisers") {
            None => None,
            Some(i) => match &m[i].1 {
                JsonValue::Null => None,
                other => match decode_strings(other) {
                    Some(x) => Some(x),
                    None => {
                        return None;
                    },
                },
            },
        };
        let ignore_dmas = match member_index(m, "ignore_dmas") {
            None => None,
            Some(i) => match &m[i].1 {
                JsonValue::Null => None,
                other => match decode_bytes(other) {
                    Some(x) => Some(x),
                    None => {
                        return None;
                    },
                },
            },
        };
        let d = AdmDefaults {
            advertiser_urls,
            impression_hosts,
            click_hosts,
            image_hosts,
            position,
            ignore_advertisers,
            ignore_dmas,
        };
        assert(url_filters_view(Seq::<AdvertiserUrlFilter>::empty()) =~= Seq::<UrlFilterView>::empty());
        assert(crate::adm::filter::hosts_view(Seq::<Vec<String>>::empty()) =~= Seq::<Seq<Seq<char>>>::empty());
        Some(d)
    }
}

/// The URL filters of each country of a JSON object.
pub open spec fn country_step() -> spec_fn(Map<Seq<char>, Seq<UrlFilterView>>, (String, JsonValue)) -> Result<
    Map<Seq<char>, Seq<UrlFilterView>>,
    (),
> {
    |acc: Map<Seq<char>, Seq<UrlFilterView>>, m: (String, JsonValue)|
        match url_filter_list_spec(m.1) {
            Ok(l) => Ok(acc.insert(m.0@, l)),
            Err(e) => Err(e),
        }
}

/// A JSON object of countries, each with its list of URL filters.
pub open spec fn countries_json(v: JsonValue) -> Result<Map<Seq<char>, Seq<UrlFilterView>>, ()> {
    match v {
        JsonValue::Object(m) => fold_result(m@, Map::empty(), country_step()),
        _ => Err(()),
    }
}

/// Each partner of a JSON object, with its countries.
pub open spec fn partner_step() -> spec_fn(Map<Seq<char>, Map<Seq<char>, Seq<UrlFilterView>>>, (String, JsonValue)) -> Result<
    Map<Seq<char>, Map<Seq<char>, Seq<UrlFilterView>>>,
    (),
> {
    |acc: Map<Seq<char>, Map<Seq<char>, Seq<UrlFilterView>>>, m: (String, JsonValue)|
        match countries_json(m.1) {
            Ok(c) => Ok(acc.insert(crate::text::unicode_lowercase(m.0@), c)),
            Err(e) => Err(e),
        }
}

/// The partners' URL filters of a JSON document `{"adm_advertisers": {partner:
/// {country: [filter, ...]}}}`, under their lower-cased names.
pub open spec fn partner_settings_json(v: JsonValue) -> Result<Map<Seq<char>, Map<Seq<char>, Seq<UrlFilterView>>>, ()> {
    match v {
        JsonValue::Object(m) => match obj_get(m@, "adm_advertisers"@) {
            Some(JsonValue::Object(ps)) => fold_result(ps@, Map::empty(), partner_step()),
            _ => Err(()),
        },
        _ => Err(()),
    }
}

/// The views of the URL filters of each country of each partner.
pub open spec fn partners_view(m: Map<Seq<char>, StrMap<Vec<AdvertiserUrlFilter>>>) -> Map<
    Seq<char>,
    Map<Seq<char>, Seq<UrlFilterView>>,
> {
    m.map_values(|c: StrMap<Vec<AdvertiserUrlFilter>>| countries_view(c@))
}

fn decode_countries(v: &JsonValue) -> (r: Option<StrMap<Vec<AdvertiserUrlFilter>>>)
    ensures
        match r {
            Some(c) => countries_json(*v) == Ok::<Map<Seq<char>, Seq<UrlFilterView>>, ()>(countries_view(c@)),
            None => countries_json(*v) is Err,
        },
{
    let m = match v {
        JsonValue::Object(m) => m,
        _ => {
            return None;
        },
    };
    let ghost step = country_step();
    let mut out: StrMap<Vec<AdvertiserUrlFilter>> = StrMap::new();
    let mut i: usize = 0;
    assert(countries_view(out@) =~= Map::<Seq<char>, Seq<UrlFilterView>>::empty());
    assert(m@.take(0) =~= Seq::<(String, JsonValue)>::empty());
    while i < m.len()
        invariant
            i <= m@.len(),
            *v == JsonValue::Object(*m),
            step == country_step(),
            fold_result(m@.take(i as int), Map::empty(), step) == Ok::<Map<Seq<char>, Seq<UrlFilterView>>, ()>(
                countries_view(out@),
            ),
        decreases m@.len() - i,
    {
        proof {
            lemma_fold_step(m@, i as int, Map::empty(), step);
        }
        match decode_url_filters(&m[i].1) {
            Some(fs) => {
                let ghost before = out@;
                let ghost fv = url_filters_view(fs@);
                out.insert(m[i].0.clone(), fs);
                assert(countries_view(out@) =~= countries_view(before).insert(m@[i as int].0@, fv));
            },
            None => {
                proof {
                    lemma_fold_error_stays(m@, i + 1, Map::empty(), step);
                }
                return None;
            },
        }
        i = i + 1;
    }
    proof {
        lemma_fold_whole(m@, Map::empty(), step);
    }
    Some(out)
}

impl AdmAdvertiserSettings {
    /// The partners' URL filters of a JSON document (see `partner_settings_json`).
    pub fn from_json_value(v: &JsonValue) -> (r: Option<AdmAdvertiserSettings>)
        ensures
            match r {
                Some(s) => partner_settings_json(*v) == Ok::<
                    Map<Seq<char>, Map<Seq<char>, Seq<UrlFilterView>>>,
                    (),
                >(partners_view(s.adm_advertisers@)),
                None => partner_settings_json(*v) is Err,
            },
    {
        proof {
            reveal_strlit("adm_advertisers");
        }
        let top = match v {
            JsonValue::Object(m) => m,
            _ => {
                return None;
            },
        };
        let ps = match member_index(top, "adm_advertisers") {
            Some(i) => match &top[i].1 {
                JsonValue::Object(ps) => ps,
                _ => {
                    return None;
                },
            },
            None => {
                return None;
            },
        };
        let ghost step = partner_step();
        let mut out: StrMap<StrMap<Vec<AdvertiserUrlFilter>>> = StrMap::new();
        let mut i: usize = 0;
        assert(partners_view(out@) =~= Map::<Seq<char>, Map<Seq<char>, Seq<UrlFilterView>>>::empty());
        assert(ps@.take(0) =~= Seq::<(String, JsonValue)>::empty());
        while i < ps.len()
            invariant
                i <= ps@.len(),
                partner_settings_json(*v) == fold_result(ps@, Map::empty(), step),
                step == partner_step(),
                fold_result(ps@.take(i as int), Map::empty(), step) == Ok::<
                    Map<Seq<char>, Map<Seq<char>, Seq<UrlFilterView>>>,
                    (),
                >(partners_view(out@)),
            decreases ps@.len() - i,
        {
            proof {
                lemma_fold_step(ps@, i as int, Map::empty(), step);
            }
            match decode_countries(&ps[i].1) {
                Some(c) => {
                    let ghost before = out@;
                    let ghost cv = countries_view(c@);
                    let name = crate::text::to_lowercase(ps[i].0.as_str());
                    let ghost nv = name@;
                    out.insert(name, c);
                    assert(partners_view(out@) =~= partners_view(before).insert(nv, cv));
                },
                None => {
                    proof {
                        lemma_fold_error_stays(ps@, i + 1, Map::empty(), step);
                    }
                    return None;
                },
            }
            i = i + 1;
        }
        proof {
            lemma_fold_whole(ps@, Map::empty(), step);
        }
        Some(AdmAdvertiserSettings { adm_advertisers: out })
    }
}

} // verus!
