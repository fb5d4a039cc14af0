//! Filter criteria for the partner's tiles, and the checks that apply them.
use vstd::prelude::*;

use crate::adm::decode::partners_view;
use crate::adm::settings::countries_view;
use crate::adm::settings::{AdmDefaults, AdvertiserUrlFilter, PathFilter, PathMatching, UrlFilterView};
use crate::adm::tiles::{tile_of, AdmTile, Tile};
use crate::error::{HandlerError, HandlerErrorKind, HandlerResult, KindView};
use crate::strmap::{keys_of, map_of, StrMap, StrSet};
use crate::tags::{with_entry, Tags, TagsView};
use crate::text::{
    chars_of, concat, copy_str, split_char, split_on, str_eq, strs_view, to_lowercase,
    unicode_lowercase,
};
use crate::user_agent::DeviceInfo;
use crate::web_url::{http_uri_accepts, uri_parses, url_crate_parse, ParsedUrl};

verus! {

/// The partners' URL filters: for each partner name, the URL filters of each country.
#[derive(Debug)]
pub struct AdmAdvertiserSettings {
    pub adm_advertisers: StrMap<StrMap<Vec<AdvertiserUrlFilter>>>,
}

/// Filter criteria for the partner's tiles.
#[derive(Debug)]
pub struct AdmFilter {
    /// Filter settings by (lower-cased) advertiser name
    pub advertiser_filters: AdmAdvertiserSettings,
    /// Ignored (not included but also not reported) advertiser names
    pub ignore_list: StrSet,
    /// Advertisers with legacy images built into Firefox, for versions before 91.
    pub legacy_list: StrSet,
    /// Every country that some advertiser serves
    pub all_include_regions: StrSet,
    /// Where the advertiser settings came from
    pub source: Option<String>,
    /// The cloud storage URL of the advertiser settings, where they came from there
    pub source_url: Option<ParsedUrl>,
    /// When the settings were last updated (seconds since the epoch)
    pub last_updated: Option<i64>,
    /// Seconds between checks for new settings
    pub refresh_rate_secs: u64,
    /// Defaults for every advertiser
    pub defaults: AdmDefaults,
    /// Answer 200 instead of 204 for countries with nothing to serve
    pub excluded_countries_200: bool,
}

/// The views of a list of hosts, each a list of labels.
pub open spec fn hosts_view(h: Seq<Vec<String>>) -> Seq<Seq<Seq<char>>> {
    h.map_values(|v: Vec<String>| strs_view(v@))
}

/// Whether one of the allowed hosts (as labels) ends the host's labels: a filter entry
/// for `example.com` admits `example.com` and `foo.example.com`.
pub open spec fn host_allowed(domains: Seq<Seq<char>>, filter: Seq<Seq<Seq<char>>>) -> bool {
    exists|i: int| 0 <= i < filter.len() && (#[trigger] filter[i]).is_suffix_of(domains)
}

/// The error, if any, of checking a URL's host against a host filter.
pub open spec fn url_check(url: ParsedUrl, species: Seq<char>, filter: Seq<Seq<Seq<char>>>) -> Option<KindView> {
    match url.host {
        None => Some(KindView::MissingHost(species, url.serialization@)),
        Some(h) => if host_allowed(split_on(h@, '.'), filter) {
            None
        } else {
            Some(KindView::UnexpectedHost(species, h@))
        },
    }
}

/// `p` with a `/` added where it does not end with one.
pub open spec fn slashed(p: Seq<char>) -> Seq<char> {
    if p.len() > 0 && p.last() == '/' {
        p
    } else {
        p.push('/')
    }
}

/// Whether a path filter accepts `path`.
pub open spec fn rule_accepts(rule: PathFilter, path: Seq<char>) -> bool {
    match rule.matching {
        PathMatching::Exact => rule.value@ == path,
        PathMatching::Prefix => rule.value@.is_prefix_of(slashed(path)),
    }
}

/// Whether one of the path filters accepts `path`.
pub open spec fn some_rule_accepts(rules: Seq<PathFilter>, path: Seq<char>) -> bool {
    exists|j: int| 0 <= j < rules.len() && rule_accepts(#[trigger] rules[j], path)
}

/// Whether a URL filter accepts a URL with this host and path.
pub open spec fn url_filter_accepts(f: AdvertiserUrlFilter, host: Seq<char>, path: Seq<char>) -> bool {
    f.host@ == host && match f.paths {
        Some(ps) => some_rule_accepts(ps@, path),
        None => path == "/"@,
    }
}

/// The error, if any, of checking an advertiser URL against the advertiser's URL filters.
pub open spec fn advertiser_check(filters: Seq<AdvertiserUrlFilter>, url: Seq<char>) -> Option<KindView> {
    match url_crate_parse(url) {
        Err(_) => Some(KindView::InvalidHost("Advertiser"@, "Url::parse failed"@)),
        Ok(p) => match p.host {
            None => Some(KindView::MissingHost("Advertiser"@, p.serialization@)),
            Some(h) => if unicode_lowercase(p.scheme@) != "https"@ {
                Some(KindView::InvalidHost("Advertiser"@, h@))
            } else if exists|i: int|
                0 <= i < filters.len() && url_filter_accepts(#[trigger] filters[i], h@, p.path@) {
                None
            } else {
                Some(KindView::InvalidHost("Advertiser"@, h@))
            },
        },
    }
}

/// Whether the query parameter names of a click URL are acceptable: `ci`, `ctag`,
/// `key` and `version` are present, and nothing but those and `click-status`.
pub open spec fn click_params_ok(keys: Seq<Seq<char>>) -> bool {
    &&& keys.contains("ci"@)
    &&& keys.contains("ctag"@)
    &&& keys.contains("key"@)
    &&& keys.contains("version"@)
    &&& forall|i: int|
        0 <= i < keys.len() ==> (#[trigger] keys[i] == "ci"@ || keys[i] == "ctag"@ || keys[i] == "key"@
            || keys[i] == "version"@ || keys[i] == "click-status"@)
}

/// The error, if any, of checking a click URL.
pub open spec fn click_check(hosts: Seq<Seq<Seq<char>>>, url: Seq<char>) -> Option<KindView> {
    match url_crate_parse(url) {
        Err(_) => Some(KindView::InvalidHost("Click"@, "Url::parse failed"@)),
        Ok(p) => match p.host {
            None => Some(KindView::MissingHost("Click"@, p.serialization@)),
            Some(h) => match url_check(p, "Click"@, hosts) {
                Some(e) => Some(e),
                None => if click_params_ok(strs_view(p.query_keys@)) {
                    None
                } else {
                    Some(KindView::InvalidHost("Click"@, h@))
                },
            },
        },
    }
}

/// The error, if any, of checking an impression URL: its only query parameter must be `id`.
pub open spec fn impression_check(hosts: Seq<Seq<Seq<char>>>, url: Seq<char>) -> Option<KindView> {
    match url_crate_parse(url) {
        Err(_) => Some(KindView::InvalidHost("Impression"@, "Url::parse failed"@)),
        Ok(p) => if strs_view(p.query_keys@) != seq!["id"@] {
            match p.host {
                None => Some(KindView::MissingHost("Impression"@, p.serialization@)),
                Some(h) => Some(KindView::InvalidHost("Impression"@, h@)),
            }
        } else {
            url_check(p, "Impression"@, hosts)
        },
    }
}

/// The error, if any, of checking an image URL; no image hosts means any host.
pub open spec fn image_check(hosts: Seq<Seq<Seq<char>>>, url: Seq<char>) -> Option<KindView> {
    if hosts.len() == 0 {
        None
    } else {
        match url_crate_parse(url) {
            Err(_) => Some(KindView::InvalidHost("Image"@, "Url::parse failed"@)),
            Ok(p) => url_check(p, "Image"@, hosts),
        }
    }
}

/// The first required click parameter (`ci`, `ctag`, `key`, `version`) that is missing.
pub open spec fn missing_click_param(keys: Seq<Seq<char>>) -> Option<Seq<char>> {
    if !keys.contains("ci"@) {
        Some("ci"@)
    } else if !keys.contains("ctag"@) {
        Some("ctag"@)
    } else if !keys.contains("key"@) {
        Some("key"@)
    } else if !keys.contains("version"@) {
        Some("version"@)
    } else {
        None
    }
}

/// Whether a click parameter is one of the allowed ones.
pub open spec fn known_click_param(k: Seq<char>) -> bool {
    k == "ci"@ || k == "ctag"@ || k == "key"@ || k == "version"@ || k == "click-status"@
}

/// The first click parameter that is not one of the allowed ones.
pub open spec fn unknown_click_param(keys: Seq<Seq<char>>) -> Option<Seq<char>>
    decreases keys.len(),
{
    if keys.len() == 0 {
        None
    } else if !known_click_param(keys[0]) {
        Some(keys[0])
    } else {
        unknown_click_param(keys.drop_first())
    }
}

/// The tags after a check of a tile's URL failed: the species as the `type` tag, the
/// tile's name and the URL as extra data.
pub open spec fn marked(t: TagsView, species: Seq<char>, tile: Seq<char>, url: Seq<char>) -> TagsView {
    TagsView {
        tags: with_entry(t.tags, "type"@, species),
        extra: with_entry(with_entry(t.extra, "tile"@, tile), "url"@, url),
        metric: t.metric,
    }
}

/// `marked`, with the reason and the query parameter at fault as extra data.
pub open spec fn marked_param(
    t: TagsView,
    species: Seq<char>,
    tile: Seq<char>,
    url: Seq<char>,
    reason: Seq<char>,
    param: Seq<char>,
) -> TagsView {
    let m = marked(t, species, tile, url);
    TagsView { tags: m.tags, extra: with_entry(with_entry(m.extra, "reason"@, reason), "param"@, param), metric: m.metric }
}

/// `marked`, with the URL parser's message as extra data.
pub open spec fn parse_marked(t: TagsView, species: Seq<char>, tile: Seq<char>, url: Seq<char>, msg: Seq<char>) -> TagsView {
    let m = marked(t, species, tile, url);
    TagsView { tags: m.tags, extra: with_entry(m.extra, "parse_error"@, msg), metric: m.metric }
}

/// The tags after checking an advertiser URL of the tile named `tile`.
pub open spec fn advertiser_tags(filters: Seq<AdvertiserUrlFilter>, tile: Seq<char>, url: Seq<char>, t: TagsView) -> TagsView {
    match url_crate_parse(url) {
        Err(m) => parse_marked(t, "Advertiser"@, tile, url, m@),
        Ok(p) => if p.host is None || advertiser_check(filters, url) is None {
            t
        } else {
            marked(t, "Advertiser"@, tile, url)
        },
    }
}

/// The tags after checking a click URL of the tile named `tile`.
pub open spec fn click_tags(hosts: Seq<Seq<Seq<char>>>, tile: Seq<char>, url: Seq<char>, t: TagsView) -> TagsView {
    match url_crate_parse(url) {
        Err(m) => parse_marked(t, "Click"@, tile, url, m@),
        Ok(p) => if p.host is None || url_check(p, "Click"@, hosts) is Some {
            t
        } else {
            match missing_click_param(strs_view(p.query_keys@)) {
                Some(k) => marked_param(t, "Click"@, tile, url, "missing required query param"@, k),
                None => match unknown_click_param(strs_view(p.query_keys@)) {
                    Some(k) => marked_param(t, "Click"@, tile, url, "invalid query param"@, k),
                    None => t,
                },
            }
        },
    }
}

/// The tags after checking an impression URL of the tile named `tile`.
pub open spec fn impression_tags(tile: Seq<char>, url: Seq<char>, t: TagsView) -> TagsView {
    match url_crate_parse(url) {
        Err(m) => parse_marked(t, "Impression"@, tile, url, m@),
        Ok(p) => if strs_view(p.query_keys@) != seq!["id"@] {
            marked_param(t, "Impression"@, tile, url, "invalid query param"@, "id"@)
        } else {
            t
        },
    }
}

/// The tags after checking an image URL of the tile named `tile`.
pub open spec fn image_tags(hosts: Seq<Seq<Seq<char>>>, tile: Seq<char>, url: Seq<char>, t: TagsView) -> TagsView {
    if hosts.len() == 0 {
        t
    } else {
        match url_crate_parse(url) {
            Err(m) => parse_marked(t, "Image"@, tile, url, m@),
            Ok(_) => t,
        }
    }
}

/// What filtering does with a tile: whether it is accepted, the metric counted, and
/// the error reported.
pub struct Verdict {
    pub accepted: bool,
    pub metric: Option<Seq<char>>,
    pub report: Option<KindView>,
}

/// A verdict that rejects a tile.
pub open spec fn reject(metric: Option<Seq<char>>, report: Option<KindView>) -> Verdict {
    Verdict { accepted: false, metric, report }
}

/// The outcome of filtering one tile.
#[derive(Debug)]
pub struct FilterOutcome {
    /// The tile to serve, where it passed.
    pub tile: Option<Tile>,
    /// The metric to count for a rejection.
    pub metric: Option<&'static str>,
    /// The error to report for a rejection.
    pub report: Option<HandlerError>,
}

impl AdmFilter {
    /// How filtering treats `tile` for a user in `country` on `device`.
    pub open spec fn verdict(&self, tile: AdmTile, country: Seq<char>, device: DeviceInfo) -> Verdict {
        let name = unicode_lowercase(tile.name@);
        if self.advertiser_filters.adm_advertisers@.contains_key(name) {
            let countries = self.advertiser_filters.adm_advertisers@[name];
            if !countries@.contains_key(country) {
                reject(Some("filter.adm.err.invalid_location"@), None)
            } else if device.legacy_only_spec() && !self.legacy_list@.contains(name) {
                reject(Some("filter.adm.err.non_legacy"@), None)
            } else {
                match advertiser_check(countries@[country]@, tile.advertiser_url@) {
                    Some(e) => reject(Some("filter.adm.err.invalid_advertiser"@), Some(e)),
                    None => match click_check(hosts_view(self.defaults.click_hosts@), tile.click_url@) {
                        Some(e) => reject(Some("filter.adm.err.invalid_click"@), Some(e)),
                        None => match impression_check(
                            hosts_view(self.defaults.impression_hosts@),
                            tile.impression_url@,
                        ) {
                            Some(e) => reject(Some("filter.adm.err.invalid_impression"@), Some(e)),
                            None => match image_check(hosts_view(self.defaults.image_hosts@), tile.image_url@) {
                                Some(e) => reject(Some("filter.adm.err.invalid_image_host"@), Some(e)),
                                None => if !http_uri_accepts(tile.image_url@) {
                                    reject(
                                        Some("filter.adm.err.invalid_image"@),
                                        Some(KindView::InvalidHost("Image"@, tile.image_url@)),
                                    )
                                } else {
                                    Verdict { accepted: true, metric: None, report: None }
                                },
                            },
                        },
                    },
                }
            }
        } else if self.ignore_list@.contains(name) {
            reject(None, None)
        } else {
            reject(
                Some("filter.adm.err.unexpected_advertiser"@),
                Some(KindView::UnexpectedAdvertiser(tile.name@)),
            )
        }
    }

    /// The tags after filtering `tile` for a user in `country` on `device`: those of
    /// the check that failed, where one did; else unchanged.
    pub open spec fn verdict_tags(&self, tile: AdmTile, country: Seq<char>, device: DeviceInfo, t: TagsView) -> TagsView {
        let name = unicode_lowercase(tile.name@);
        if !self.advertiser_filters.adm_advertisers@.contains_key(name) {
            t
        } else {
            let countries = self.advertiser_filters.adm_advertisers@[name];
            if !countries@.contains_key(country) || (device.legacy_only_spec() && !self.legacy_list@.contains(name)) {
                t
            } else if advertiser_check(countries@[country]@, tile.advertiser_url@) is Some {
                advertiser_tags(countries@[country]@, tile.name@, tile.advertiser_url@, t)
            } else if click_check(hosts_view(self.defaults.click_hosts@), tile.click_url@) is Some {
                click_tags(hosts_view(self.defaults.click_hosts@), tile.name@, tile.click_url@, t)
            } else if impression_check(hosts_view(self.defaults.impression_hosts@), tile.impression_url@) is Some {
                impression_tags(tile.name@, tile.impression_url@, t)
            } else {
                image_tags(hosts_view(self.defaults.image_hosts@), tile.name@, tile.image_url@, t)
            }
        }
    }

    /// Whether the settings come from cloud storage (a `gs` URL).
    pub fn is_cloud(&self) -> (r: bool)
        ensures
            r == (match self.source_url {
                Some(u) => u.scheme@ == "gs"@,
                None => false,
            }),
    {
        match &self.source_url {
            Some(source) => str_eq(source.scheme.as_str(), "gs"),
            None => false,
        }
    }

    /// Check the advertiser URL of a tile against the advertiser's URL filters. On
    /// success the tags are left as they were.
    pub fn check_advertiser(
        &self,
        filters: &Vec<AdvertiserUrlFilter>,
        tile: &AdmTile,
        tags: &mut Tags,
    ) -> (r: HandlerResult<()>)
        ensures
            match r {
                Ok(_) => advertiser_check(filters@, tile.advertiser_url@) is None && *final(tags) == *old(tags),
                Err(e) => advertiser_check(filters@, tile.advertiser_url@) == Some(e.kind@),
            },
            final(tags)@ == advertiser_tags(filters@, tile.name@, tile.advertiser_url@, old(tags)@),
    {
        proof {
            reveal_strlit("https");
        }
        let url = &tile.advertiser_url;
        let species = "Advertiser";
        let parsed = parse_url(url.as_str(), species, tile.name.as_str(), tags)?;
        let host = get_host(&parsed, species)?;
        let scheme = to_lowercase(parsed.scheme.as_str());
        if !str_eq(scheme.as_str(), "https") {
            tags.add_tag("type", species);
            tags.add_extra("tile", tile.name.as_str());
            tags.add_extra("url", url.as_str());
            return Err(HandlerError::new(HandlerErrorKind::InvalidHost(species, host)));
        }
        let path = slash_terminated(parsed.path.as_str());
        let mut i: usize = 0;
        while i < filters.len()
            invariant
                i <= filters@.len(),
                path@ == slashed(parsed.path@),
                parsed.host == Some(host),
                *tags == *old(tags),
                url_crate_parse(tile.advertiser_url@) == Ok::<ParsedUrl, String>(parsed),
                unicode_lowercase(parsed.scheme@) == "https"@,
                forall|k: int| 0 <= k < i ==> !url_filter_accepts(#[trigger] filters@[k], host@, parsed.path@),
            decreases filters@.len() - i,
        {
            if filter_accepts(&filters[i], host.as_str(), parsed.path.as_str(), path.as_str()) {
                assert(url_filter_accepts(filters@[i as int], host@, parsed.path@));
                return Ok(());
            }
            i = i + 1;
        }
        tags.add_tag("type", species);
        tags.add_extra("tile", tile.name.as_str());
        tags.add_extra("url", url.as_str());
        Err(HandlerError::new(HandlerErrorKind::InvalidHost(species, host)))
    }

    /// Check the click URL of a tile: its host against the default click hosts, and
    /// its query parameters (`ci`, `ctag`, `key`, `version` required, `click-status`
    /// allowed, nothing else). On success the tags are left as they were.
    pub fn check_click(&self, defaults: &AdmDefaults, tile: &AdmTile, tags: &mut Tags) -> (r: HandlerResult<()>)
        ensures
            match r {
                Ok(_) => click_check(hosts_view(defaults.click_hosts@), tile.click_url@) is None
                    && *final(tags) == *old(tags),
                Err(e) => click_check(hosts_view(defaults.click_hosts@), tile.click_url@) == Some(e.kind@),
            },
            final(tags)@ == click_tags(hosts_view(defaults.click_hosts@), tile.name@, tile.click_url@, old(tags)@),
    {
        let url = &tile.click_url;
        let species = "Click";
        let parsed = parse_url(url.as_str(), species, tile.name.as_str(), tags)?;
        let host = get_host(&parsed, species)?;
        let query_keys = clone_strs(&parsed.query_keys);
        check_url(parsed, "Click", &defaults.click_hosts)?;
        if let Some(key) = first_missing_click_param(&query_keys) {
            tags.add_tag("type", species);
            tags.add_extra("tile", tile.name.as_str());
            tags.add_extra("url", url.as_str());
            tags.add_extra("reason", "missing required query param");
            tags.add_extra("param", key);
            return Err(HandlerError::new(HandlerErrorKind::InvalidHost(species, host)));
        }
        if let Some(i) = first_unknown_click_param(&query_keys) {
            tags.add_tag("type", species);
            tags.add_extra("tile", tile.name.as_str());
            tags.add_extra("url", url.as_str());
            tags.add_extra("reason", "invalid query param");
            tags.add_extra("param", query_keys[i].as_str());
            return Err(HandlerError::new(HandlerErrorKind::InvalidHost(species, host)));
        }
        Ok(())
    }

    /// Check the impression URL of a tile: its only query parameter must be `id`, and
    /// its host must be one of the default impression hosts. On success the tags are
    /// left as they were.
    pub fn check_impression(&self, defaults: &AdmDefaults, tile: &AdmTile, tags: &mut Tags) -> (r: HandlerResult<()>)
        ensures
            match r {
                Ok(_) => impression_check(hosts_view(defaults.impression_hosts@), tile.impression_url@) is None
                    && *final(tags) == *old(tags),
                Err(e) => impression_check(hosts_view(defaults.impression_hosts@), tile.impression_url@)
                    == Some(e.kind@),
            },
            final(tags)@ == impression_tags(tile.name@, tile.impression_url@, old(tags)@),
    {
        let url = &tile.impression_url;
        let species = "Impression";
        let parsed = parse_url(url.as_str(), species, tile.name.as_str(), tags)?;
        if !is_only_id(&parsed.query_keys) {
            tags.add_tag("type", species);
            tags.add_extra("tile", tile.name.as_str());
            tags.add_extra("url", url.as_str());
            tags.add_extra("reason", "invalid query param");
            tags.add_extra("param", "id");
            let host = get_host(&parsed, species)?;
            return Err(HandlerError::new(HandlerErrorKind::InvalidHost(species, host)));
        }
        check_url(parsed, species, &defaults.impression_hosts)?;
        Ok(())
    }

    /// Check the image URL of a tile against the default image hosts (any host where
    /// there are none). On success the tags are left as they were.
    pub fn check_image_hosts(&self, defaults: &AdmDefaults, tile: &AdmTile, tags: &mut Tags) -> (r: HandlerResult<()>)
        ensures
            match r {
                Ok(_) => image_check(hosts_view(defaults.image_hosts@), tile.image_url@) is None
                    && *final(tags) == *old(tags),
                Err(e) => image_check(hosts_view(defaults.image_hosts@), tile.image_url@) == Some(e.kind@),
            },
            final(tags)@ == image_tags(hosts_view(defaults.image_hosts@), tile.name@, tile.image_url@, old(tags)@),
    {
        if defaults.image_hosts.len() == 0 {
            return Ok(());
        }
        let url = &tile.image_url;
        let species = "Image";
        let parsed = parse_url(url.as_str(), species, tile.name.as_str(), tags)?;
        check_url(parsed, species, &defaults.image_hosts)?;
        Ok(())
    }

    /// Filter one tile from the partner for a user in `country` on `device`: the tile
    /// to serve where it passes every check, and otherwise the metric to count and
    /// the error to report (see `verdict`).
    pub fn filter_and_process(
        &self,
        tile: AdmTile,
        country: &str,
        device_info: &DeviceInfo,
        tags: &mut Tags,
    ) -> (r: FilterOutcome)
        ensures
            r.tile is Some == self.verdict(tile, country@, *device_info).accepted,
            r.tile matches Some(t) ==> tile_of(tile, t),
            match (r.metric, self.verdict(tile, country@, *device_info).metric) {
                (Some(m), Some(v)) => m@ == v,
                (None, None) => true,
                _ => false,
            },
            match (r.report, self.verdict(tile, country@, *device_info).report) {
                (Some(e), Some(v)) => e.kind@ == v,
                (None, None) => true,
                _ => false,
            },
            final(tags)@ == self.verdict_tags(tile, country@, *device_info, old(tags)@),
    {
        let name = to_lowercase(tile.name.as_str());
        match self.advertiser_filters.adm_advertisers.get(name.as_str()) {
            Some(filter) => {
                let adv_filter = match filter.get(country) {
                    Some(f) => f,
                    None => {
                        return FilterOutcome {
                            tile: None,
                            metric: Some("filter.adm.err.invalid_location"),
                            report: None,
                        };
                    },
                };
                if device_info.legacy_only() && !self.legacy_list.contains(name.as_str()) {
                    return FilterOutcome { tile: None, metric: Some("filter.adm.err.non_legacy"), report: None };
                }
                if let Err(e) = self.check_advertiser(adv_filter, &tile, tags) {
                    return FilterOutcome {
                        tile: None,
                        metric: Some("filter.adm.err.invalid_advertiser"),
                        report: Some(e),
                    };
                }
                if let Err(e) = self.check_click(&self.defaults, &tile, tags) {
                    return FilterOutcome {
                        tile: None,
                        metric: Some("filter.adm.err.invalid_click"),
                        report: Some(e),
                    };
                }
                if let Err(e) = self.check_impression(&self.defaults, &tile, tags) {
                    return FilterOutcome {
                        tile: None,
                        metric: Some("filter.adm.err.invalid_impression"),
                        report: Some(e),
                    };
                }
                if let Err(e) = self.check_image_hosts(&self.defaults, &tile, tags) {
                    return FilterOutcome {
                        tile: None,
                        metric: Some("filter.adm.err.invalid_image_host"),
                        report: Some(e),
                    };
                }
                if !uri_parses(tile.image_url.as_str()) {
                    let e = HandlerError::new(HandlerErrorKind::InvalidHost("Image", tile.image_url));
                    return FilterOutcome { tile: None, metric: Some("filter.adm.err.invalid_image"), report: Some(e) };
                }
                FilterOutcome { tile: Some(Tile::from_adm_tile(tile)), metric: None, report: None }
            },
            None => {
                if !self.ignore_list.contains(name.as_str()) {
                    let e = HandlerError::new(HandlerErrorKind::UnexpectedAdvertiser(tile.name));
                    return FilterOutcome {
                        tile: None,
                        metric: Some("filter.adm.err.unexpected_advertiser"),
                        report: Some(e),
                    };
                }
                FilterOutcome { tile: None, metric: None, report: None }
            },
        }
    }
}

/// Parse a URL of a tile; on failure the tags record the species (`type`), the tile
/// name, the URL and the parser's error, and the error is `InvalidHost`.
pub fn parse_url(url: &str, species: &'static str, tile_name: &str, tags: &mut Tags) -> (r: HandlerResult<ParsedUrl>)
    ensures
        match r {
            Ok(p) => url_crate_parse(url@) == Ok::<ParsedUrl, String>(p) && *final(tags) == *old(tags),
            Err(e) => url_crate_parse(url@) is Err && e.kind@ == KindView::InvalidHost(species@, "Url::parse failed"@)
                && final(tags)@ == parse_marked(old(tags)@, species@, tile_name@, url@, url_crate_parse(url@)->Err_0@),
        },
{
    match ParsedUrl::parse(url) {
        Ok(p) => Ok(p),
        Err(msg) => {
            tags.add_tag("type", species);
            tags.add_extra("tile", tile_name);
            tags.add_extra("url", url);
            tags.add_extra("parse_error", msg.as_str());
            Err(HandlerError::new(HandlerErrorKind::InvalidHost(species, copy_str("Url::parse failed"))))
        },
    }
}

/// The host of a URL, or a `MissingHost` error naming the URL.
pub fn get_host(url: &ParsedUrl, species: &'static str) -> (r: HandlerResult<String>)
    ensures
        match r {
            Ok(h) => url.host == Some(h),
            Err(e) => url.host is None && e.kind@ == KindView::MissingHost(species@, url.serialization@),
        },
{
    match &url.host {
        Some(h) => Ok(h.clone()),
        None => Err(HandlerError::new(HandlerErrorKind::MissingHost(species, url.serialization.clone()))),
    }
}

/// Whether the labels `allowed` end the labels `domains`.
fn labels_suffix(domains: &Vec<String>, allowed: &Vec<String>) -> (r: bool)
    ensures
        r == strs_view(allowed@).is_suffix_of(strs_view(domains@)),
{
    if allowed.len() > domains.len() {
        return false;
    }
    let off = domains.len() - allowed.len();
    let mut i: usize = 0;
    while i < allowed.len()
        invariant
            allowed.len() <= domains.len(),
            off == domains.len() - allowed.len(),
            i <= allowed.len(),
            forall|j: int| 0 <= j < i ==> allowed@[j]@ == domains@[off + j]@,
        decreases allowed.len() - i,
    {
        if !str_eq(allowed[i].as_str(), domains[off + i].as_str()) {
            assert(!(strs_view(allowed@) =~= strs_view(domains@).subrange(off as int, domains@.len() as int))) by {
                assert(strs_view(domains@).subrange(off as int, domains@.len() as int)[i as int] == domains@[off + i]@);
                assert(strs_view(allowed@)[i as int] == allowed@[i as int]@);
            }
            return false;
        }
        i = i + 1;
    }
    assert(strs_view(allowed@) =~= strs_view(domains@).subrange(off as int, domains@.len() as int));
    true
}

/// Check that a URL's host is allowed by a host filter. A filter entry for
/// `example.com` (labels `["example", "com"]`) also admits `foo.example.com`.
pub fn check_url(url: ParsedUrl, species: &'static str, filter: &Vec<Vec<String>>) -> (r: HandlerResult<bool>)
    ensures
        match r {
            Ok(b) => b && url_check(url, species@, hosts_view(filter@)) is None,
            Err(e) => url_check(url, species@, hosts_view(filter@)) == Some(e.kind@),
        },
{
    let host = get_host(&url, species)?;
    let domains = split_char(host.as_str(), '.');
    let mut i: usize = 0;
    while i < filter.len()
        invariant
            i <= filter@.len(),
            url.host == Some(host),
            strs_view(domains@) == split_on(host@, '.'),
            forall|k: int| 0 <= k < i ==> !(#[trigger] hosts_view(filter@)[k]).is_suffix_of(split_on(host@, '.')),
        decreases filter@.len() - i,
    {
        if labels_suffix(&domains, &filter[i]) {
            assert(hosts_view(filter@)[i as int] == strs_view(filter@[i as int]@));
            assert(host_allowed(split_on(host@, '.'), hosts_view(filter@)));
            return Ok(true);
        }
        i = i + 1;
    }
    Err(HandlerError::new(HandlerErrorKind::UnexpectedHost(species, host)))
}

/// `p` with a `/` added where it does not end with one.
fn slash_terminated(p: &str) -> (r: String)
    ensures
        r@ == slashed(p@),
{
    proof {
        reveal_strlit("/");
    }
    let cs = chars_of(p);
    if cs.len() > 0 && cs[cs.len() - 1] == '/' {
        assert(p@.last() == cs@[cs@.len() - 1]);
        copy_str(p)
    } else {
        let r = concat(p, "/");
        assert(r@ =~= p@.push('/'));
        r
    }
}

/// Whether a URL filter accepts a URL with this host and path (`slashed` being the
/// path with a trailing `/`).
fn filter_accepts(f: &AdvertiserUrlFilter, host: &str, path: &str, slashed_path: &str) -> (r: bool)
    requires
        slashed_path@ == slashed(path@),
    ensures
        r == url_filter_accepts(*f, host@, path@),
{
    proof {
        reveal_strlit("/");
    }
    if !str_eq(host, f.host.as_str()) {
        return false;
    }
    match &f.paths {
        None => str_eq(path, "/"),
        Some(paths) => {
            let mut j: usize = 0;
            while j < paths.len()
                invariant
                    j <= paths@.len(),
                    f.paths == Some(*paths),
                    f.host@ == host@,
                    slashed_path@ == slashed(path@),
                    forall|k: int| 0 <= k < j ==> !rule_accepts(#[trigger] paths@[k], path@),
                decreases paths@.len() - j,
            {
                let rule = &paths[j];
                let hit = match rule.matching {
                    PathMatching::Exact => str_eq(rule.value.as_str(), path),
                    PathMatching::Prefix => crate::text::starts_with(slashed_path, rule.value.as_str()),
                };
                if hit {
                    assert(rule_accepts(paths@[j as int], path@));
                    assert(some_rule_accepts(paths@, path@));
                    return true;
                }
                j = j + 1;
            }
            false
        },
    }
}

/// A copy of a list of texts.
fn clone_strs(v: &Vec<String>) -> (r: Vec<String>)
    ensures
        strs_view(r@) == strs_view(v@),
{
    let mut r: Vec<String> = Vec::new();
    let mut i: usize = 0;
    while i < v.len()
        invariant
            i <= v@.len(),
            r@.len() == i,
            strs_view(r@) == strs_view(v@).take(i as int),
        decreases v@.len() - i,
    {
        let c = v[i].clone();
        r.push(c);
        assert(strs_view(r@) =~= strs_view(v@).take(i + 1)) by {
            assert(strs_view(r@).len() == i + 1);
            assert forall|k: int| 0 <= k < i + 1 implies #[trigger] strs_view(r@)[k] == strs_view(v@).take(i + 1)[k] by {
                if k < i {
                    assert(strs_view(r@)[k] == r@[k]@);
                } else {
                    assert(r@[k] == c);
                }
            }
        }
        i = i + 1;
    }
    assert(strs_view(v@).take(v@.len() as int) =~= strs_view(v@));
    r
}

/// Whether `s` is one of the texts of `v`.
fn has_str(v: &Vec<String>, s: &str) -> (r: bool)
    ensures
        r == strs_view(v@).contains(s@),
{
    let mut i: usize = 0;
    while i < v.len()
        invariant
            i <= v@.len(),
            forall|k: int| 0 <= k < i ==> v@[k]@ != s@,
        decreases v@.len() - i,
    {
        if str_eq(v[i].as_str(), s) {
            assert(strs_view(v@)[i as int] == s@);
            return true;
        }
        i = i + 1;
    }
    proof {
        if strs_view(v@).contains(s@) {
            let k = choose|k: int| 0 <= k < strs_view(v@).len() && strs_view(v@)[k] == s@;
            assert(v@[k]@ == s@);
        }
    }
    false
}

/// The first required click parameter (`ci`, `ctag`, `key`, `version`) that is missing.
fn first_missing_click_param(keys: &Vec<String>) -> (r: Option<&'static str>)
    ensures
        r is None <==> (strs_view(keys@).contains("ci"@) && strs_view(keys@).contains("ctag"@) && strs_view(
            keys@,
        ).contains("key"@) && strs_view(keys@).contains("version"@)),
        match r {
            Some(k) => missing_click_param(strs_view(keys@)) == Some(k@),
            None => missing_click_param(strs_view(keys@)) is None,
        },
{
    if !has_str(keys, "ci") {
        Some("ci")
    } else if !has_str(keys, "ctag") {
        Some("ctag")
    } else if !has_str(keys, "key") {
        Some("key")
    } else if !has_str(keys, "version") {
        Some("version")
    } else {
        None
    }
}

/// The position of the first click parameter that is not one of the allowed ones.
fn first_unknown_click_param(keys: &Vec<String>) -> (r: Option<usize>)
    ensures
        r is None <==> (forall|i: int|
            0 <= i < strs_view(keys@).len() ==> (#[trigger] strs_view(keys@)[i] == "ci"@ || strs_view(keys@)[i]
                == "ctag"@ || strs_view(keys@)[i] == "key"@ || strs_view(keys@)[i] == "version"@
                || strs_view(keys@)[i] == "click-status"@)),
        r matches Some(i) ==> i < keys@.len(),
        match r {
            Some(i) => unknown_click_param(strs_view(keys@)) == Some(strs_view(keys@)[i as int]),
            None => unknown_click_param(strs_view(keys@)) is None,
        },
{
    assert(strs_view(keys@).skip(0) =~= strs_view(keys@));
    let mut i: usize = 0;
    while i < keys.len()
        invariant
            i <= keys@.len(),
            forall|k: int|
                0 <= k < i ==> (#[trigger] strs_view(keys@)[k] == "ci"@ || strs_view(keys@)[k] == "ctag"@
                    || strs_view(keys@)[k] == "key"@ || strs_view(keys@)[k] == "version"@ || strs_view(keys@)[k]
                    == "click-status"@),
            unknown_click_param(strs_view(keys@)) == unknown_click_param(strs_view(keys@).skip(i as int)),
        decreases keys@.len() - i,
    {
        let ghost rest = strs_view(keys@).skip(i as int);
        assert(rest[0] == strs_view(keys@)[i as int]);
        assert(rest.drop_first() =~= strs_view(keys@).skip(i + 1));
        let k = keys[i].as_str();
        if !(str_eq(k, "ci") || str_eq(k, "ctag") || str_eq(k, "key") || str_eq(k, "version") || str_eq(
            k,
            "click-status",
        )) {
            assert(strs_view(keys@)[i as int] == keys@[i as int]@);
            return Some(i);
        }
        i = i + 1;
    }
    assert(strs_view(keys@).skip(i as int) =~= Seq::<Seq<char>>::empty());
    None
}

/// Whether the query parameter names are exactly `["id"]`.
fn is_only_id(keys: &Vec<String>) -> (r: bool)
    ensures
        r == (strs_view(keys@) == seq!["id"@]),
{
    if keys.len() != 1 {
        assert(strs_view(keys@).len() != seq!["id"@].len());
        return false;
    }
    let r = str_eq(keys[0].as_str(), "id");
    if r {
        assert(strs_view(keys@) =~= seq!["id"@]);
    } else {
        assert(strs_view(keys@)[0] != seq!["id"@][0]);
    }
    r
}


/// Each partner's name and the view of its countries' URL filters, in key order.
pub open spec fn partner_pairs(m: StrMap<StrMap<Vec<AdvertiserUrlFilter>>>) -> Seq<
    (Seq<char>, Map<Seq<char>, Seq<UrlFilterView>>),
> {
    Seq::new(m.key_seq().len(), |i: int| (m.key_seq()[i], countries_view(m.value_at(i)@)))
}

/// The partners stored under their lower-cased names, a later one replacing an
/// earlier one of the same lower-cased name.
pub open spec fn lowered_partners(ps: Seq<(Seq<char>, Map<Seq<char>, Seq<UrlFilterView>>)>) -> Map<
    Seq<char>,
    Map<Seq<char>, Seq<UrlFilterView>>,
>
    decreases ps.len(),
{
    if ps.len() == 0 {
        Map::empty()
    } else {
        lowered_partners(ps.drop_last()).insert(unicode_lowercase(ps.last().0), ps.last().1)
    }
}

/// Every country that some partner serves.
pub open spec fn regions_of(ps: Seq<(Seq<char>, Map<Seq<char>, Seq<UrlFilterView>>)>) -> Set<Seq<char>>
    decreases ps.len(),
{
    if ps.len() == 0 {
        Set::empty()
    } else {
        regions_of(ps.drop_last()).union(ps.last().1.dom())
    }
}

impl AdmFilter {
    /// Replace the partners' URL filters with new ones (stored under lower-cased
    /// names), recompute the countries served, and record when they were updated.
    pub fn update(&mut self, settings: AdmAdvertiserSettings, last_updated: i64)
        ensures
            partners_view(final(self).advertiser_filters.adm_advertisers@) == lowered_partners(
                partner_pairs(settings.adm_advertisers),
            ),
            final(self).all_include_regions@ == regions_of(partner_pairs(settings.adm_advertisers)),
            final(self).last_updated == Some(last_updated),
            final(self).ignore_list == old(self).ignore_list,
            final(self).legacy_list == old(self).legacy_list,
            final(self).source == old(self).source,
            final(self).source_url == old(self).source_url,
            final(self).refresh_rate_secs == old(self).refresh_rate_secs,
            final(self).defaults == old(self).defaults,
            final(self).excluded_countries_200 == old(self).excluded_countries_200,
    {
        let ghost pairs = partner_pairs(settings.adm_advertisers);
        let ghost n = settings.adm_advertisers.key_seq().len();
        let mut entries = settings.adm_advertisers.into_entries();
        let ghost all = entries@;
        proof {
            assert forall|i: int| 0 <= i < all.len() implies #[trigger] pairs[i] == (all[i].0@, countries_view(
                all[i].1@,
            )) by {
                assert(keys_of(all)[i] == all[i].0@);
            }
        }
        let mut regions = StrSet::new();
        let mut partners: StrMap<StrMap<Vec<AdvertiserUrlFilter>>> = StrMap::new();
        assert(partners_view(partners@) =~= Map::<Seq<char>, Map<Seq<char>, Seq<UrlFilterView>>>::empty());
        assert(pairs.take(0) =~= Seq::<(Seq<char>, Map<Seq<char>, Seq<UrlFilterView>>)>::empty());
        assert(all.skip(0) =~= all);
        let total = entries.len();
        assert(all.len() == total);
        let mut i: usize = 0;
        while entries.len() > 0
            invariant
                i + entries@.len() == all.len(),
                all.len() == pairs.len(),
                all.len() <= usize::MAX,
                entries@ == all.skip(i as int),
                forall|j: int| 0 <= j < all.len() ==> #[trigger] pairs[j] == (all[j].0@, countries_view(all[j].1@)),
                partners_view(partners@) == lowered_partners(pairs.take(i as int)),
                regions@ == regions_of(pairs.take(i as int)),
            decreases entries@.len(),
        {
            let ghost rest = entries@;
            let (adv, setting) = entries.remove(0);
            assert(all.skip(i as int)[0] == all[i as int]);
            assert(entries@ =~= all.skip(i + 1));
            assert(pairs.take(i + 1).drop_last() =~= pairs.take(i as int));
            assert(pairs.take(i + 1).last() == pairs[i as int]);
            let n_countries = setting.len();
            let mut j: usize = 0;
            let ghost before_regions = regions@;
            assert(setting.key_seq().take(0).to_set() =~= Set::<Seq<char>>::empty());
            assert(regions@ =~= before_regions.union(setting.key_seq().take(0).to_set()));
            while j < n_countries
                invariant
                    j <= n_countries,
                    n_countries == setting.key_seq().len(),
                    regions@ == before_regions.union(setting.key_seq().take(j as int).to_set()),
                decreases n_countries - j,
            {
                let (country, _) = setting.entry(j);
                regions.insert(country.clone());
                proof {
                    crate::text::lemma_take_to_set(setting.key_seq(), j as int);
                }
                assert(regions@ =~= before_regions.union(setting.key_seq().take(j + 1).to_set()));
                j = j + 1;
            }
            assert(setting.key_seq().take(n_countries as int) =~= setting.key_seq());
            assert(setting.key_seq().to_set() =~= setting@.dom()) by {
                assert forall|k: Seq<char>| setting.key_seq().to_set().contains(k) <==> setting@.dom().contains(k) by {
                    assert(setting@.contains_key(k) <==> setting.key_seq().contains(k));
                }
            }
            assert(countries_view(setting@).dom() =~= setting@.dom());
            assert(regions@ =~= regions_of(pairs.take(i + 1)));
            let ghost before = partners@;
            let ghost cv = countries_view(setting@);
            let lower = to_lowercase(adv.as_str());
            let ghost lv = lower@;
            partners.insert(lower, setting);
            assert(partners_view(partners@) =~= partners_view(before).insert(lv, cv));
            i = i + 1;
        }
        assert(pairs.take(all.len() as int) =~= pairs);
        self.all_include_regions = regions;
        self.advertiser_filters = AdmAdvertiserSettings { adm_advertisers: partners };
        self.last_updated = Some(last_updated);
    }
}


/// The partners' URL filters of a settings text downloaded from cloud storage, where
/// it is JSON of their form.
pub open spec fn partner_settings_from_text(text: Seq<char>) -> Option<Map<Seq<char>, Map<Seq<char>, Seq<UrlFilterView>>>> {
    match crate::json::serde_json_from_str(text) {
        Ok(v) => match crate::adm::decode::partner_settings_json(v) {
            Ok(m) => Some(m),
            Err(_) => None,
        },
        Err(_) => None,
    }
}

impl AdmAdvertiserSettings {
    /// The partners' URL filters of a downloaded settings text: a `General` error
    /// where it is not JSON of their form.
    pub fn from_download(text: &str) -> (r: HandlerResult<AdmAdvertiserSettings>)
        ensures
            match r {
                Ok(s) => partner_settings_from_text(text@) == Some(partners_view(s.adm_advertisers@)),
                Err(e) => partner_settings_from_text(text@) is None && e.kind@ is General,
            },
    {
        match crate::json::parse_json(text) {
            Ok(v) => match AdmAdvertiserSettings::from_json_value(&v) {
                Some(s) => Ok(s),
                None => Err(
                    HandlerError::new(HandlerErrorKind::General(copy_str("Could not read ADM Settings: invalid form"))),
                ),
            },
            Err(m) => Err(HandlerError::new(HandlerErrorKind::General(concat("Could not read ADM Settings: ", m.as_str())))),
        }
    }
}

impl AdmFilter {
    /// Where the cloud-stored settings are (bucket and object), where they are
    /// cloud-stored; an `Internal` error where their URL has no host.
    pub fn settings_location(&self) -> (r: HandlerResult<Option<(String, String)>>)
        ensures
            match self.source_url {
                Some(u) => if u.scheme@ == "gs"@ {
                    match crate::web_url::bucket_object(u) {
                        Some((h, p)) => r matches Ok(Some((rh, rp))) && rh@ == h && rp@ == p,
                        None => r matches Err(e) && e.kind@ is Internal,
                    }
                } else {
                    r matches Ok(None)
                },
                None => r matches Ok(None),
            },
    {
        if !self.is_cloud() {
            return Ok(None);
        }
        match &self.source_url {
            Some(bucket) => match crate::web_url::bucket_location(bucket) {
                Some(loc) => Ok(Some(loc)),
                None => {
                    let msg = concat("Missing bucket Host ", bucket.serialization.as_str());
                    Err(HandlerError::internal(msg.as_str()))
                },
            },
            None => Ok(None),
        }
    }

    /// Whether cloud-stored settings last updated at `updated` are to be downloaded:
    /// they are newer than those last read; a `General` error where the object has no
    /// update time.
    pub fn needs_new_settings(&self, updated: Option<i64>) -> (r: HandlerResult<bool>)
        ensures
            match updated {
                Some(t) => r == Ok::<bool, HandlerError>(crate::web_url::newer_than(self.last_updated, t)),
                None => r matches Err(e) && e.kind@ == KindView::General(
                    "ADM Settings missing last updated timestamp"@,
                ),
            },
    {
        match updated {
            Some(t) => Ok(crate::web_url::needs_download(self.last_updated, t)),
            None => Err(
                HandlerError::new(HandlerErrorKind::General(copy_str("ADM Settings missing last updated timestamp"))),
            ),
        }
    }
}


/// A URL filter that lists only a host behaves as one that lists the single path
/// filter exact `/`: for every path, both accept the same URLs of that host. In
/// particular it accepts the host's root path `/`.
pub proof fn lemma_host_only_filter(f: AdvertiserUrlFilter, g: AdvertiserUrlFilter, host: Seq<char>, path: Seq<char>)
    requires
        f.paths is None,
        g.host@ == f.host@,
        g.paths matches Some(ps) && ps@.len() == 1 && ps@[0].value@ == "/"@ && ps@[0].matching
            == PathMatching::Exact,
    ensures
        url_filter_accepts(f, host, path) == url_filter_accepts(g, host, path),
        f.host@ == host ==> url_filter_accepts(f, host, "/"@),
{
    let ps = g.paths->Some_0;
    if rule_accepts(ps@[0], path) {
        assert(some_rule_accepts(ps@, path));
    }
    if some_rule_accepts(ps@, path) {
        let j = choose|j: int| 0 <= j < ps@.len() && rule_accepts(#[trigger] ps@[j], path);
        assert(j == 0);
    }
}

/// A host filter that admits a host also admits every host under it: a filter entry
/// for `example.com` that admits `bridge.example.com` admits `foo.bridge.example.com`.
pub proof fn lemma_subdomain_allowed(domains: Seq<Seq<char>>, more: Seq<Seq<char>>, filter: Seq<Seq<Seq<char>>>)
    requires
        host_allowed(domains, filter),
    ensures
        host_allowed(more + domains, filter),
{
    let i = choose|i: int| 0 <= i < filter.len() && (#[trigger] filter[i]).is_suffix_of(domains);
    let f = filter[i];
    let all = more + domains;
    assert(f =~= all.subrange(all.len() - f.len(), all.len() as int)) by {
        assert forall|k: int| 0 <= k < f.len() implies f[k] == all.subrange(all.len() - f.len(), all.len() as int)[k] by {
            assert(f[k] == domains.subrange(domains.len() - f.len(), domains.len() as int)[k]);
        }
    }
    assert(filter[i].is_suffix_of(all));
}

/// A tile of an advertiser without filter settings is never served; it is reported as
/// unexpected (with its metric) unless the advertiser is on the ignore list, in which
/// case nothing is counted or reported.
pub proof fn lemma_unknown_advertiser(f: AdmFilter, tile: AdmTile, country: Seq<char>, device: DeviceInfo)
    requires
        !f.advertiser_filters.adm_advertisers@.contains_key(unicode_lowercase(tile.name@)),
    ensures
        !f.verdict(tile, country, device).accepted,
        f.ignore_list@.contains(unicode_lowercase(tile.name@)) ==> f.verdict(tile, country, device).metric is None
            && f.verdict(tile, country, device).report is None,
        !f.ignore_list@.contains(unicode_lowercase(tile.name@)) ==> f.verdict(tile, country, device).report == Some(
            KindView::UnexpectedAdvertiser(tile.name@),
        ),
{
}

/// A served tile passed every check: its advertiser serves the country, its
/// advertiser, click, impression and image URLs pass, and legacy devices only get
/// legacy advertisers.
pub proof fn lemma_accepted_passes_checks(f: AdmFilter, tile: AdmTile, country: Seq<char>, device: DeviceInfo)
    requires
        f.verdict(tile, country, device).accepted,
    ensures
        ({
            let name = unicode_lowercase(tile.name@);
            &&& f.advertiser_filters.adm_advertisers@.contains_key(name)
            &&& f.advertiser_filters.adm_advertisers@[name]@.contains_key(country)
            &&& device.legacy_only_spec() ==> f.legacy_list@.contains(name)
            &&& advertiser_check(f.advertiser_filters.adm_advertisers@[name]@[country]@, tile.advertiser_url@) is None
            &&& click_check(hosts_view(f.defaults.click_hosts@), tile.click_url@) is None
            &&& impression_check(hosts_view(f.defaults.impression_hosts@), tile.impression_url@) is None
            &&& image_check(hosts_view(f.defaults.image_hosts@), tile.image_url@) is None
            &&& http_uri_accepts(tile.image_url@)
        }),
{
}

/// The countries served after an update are exactly those of some partner.
pub proof fn lemma_regions_cover(ps: Seq<(Seq<char>, Map<Seq<char>, Seq<UrlFilterView>>)>, c: Seq<char>)
    ensures
        regions_of(ps).contains(c) <==> exists|i: int| 0 <= i < ps.len() && (#[trigger] ps[i]).1.contains_key(c),
    decreases ps.len(),
{
    if ps.len() > 0 {
        lemma_regions_cover(ps.drop_last(), c);
        if exists|i: int| 0 <= i < ps.len() && (#[trigger] ps[i]).1.contains_key(c) {
            let i = choose|i: int| 0 <= i < ps.len() && (#[trigger] ps[i]).1.contains_key(c);
            if i < ps.len() - 1 {
                assert(ps.drop_last()[i] == ps[i]);
            }
        }
        if regions_of(ps.drop_last()).contains(c) {
            let i = choose|i: int| 0 <= i < ps.drop_last().len() && (#[trigger] ps.drop_last()[i]).1.contains_key(c);
            assert(ps[i] == ps.drop_last()[i]);
        }
    }
}


impl Default for AdmFilter {
    /// A filter with no partners, lists, source or defaults.
    fn default() -> (r: AdmFilter)
        ensures
            r.advertiser_filters.adm_advertisers@ == Map::<Seq<char>, StrMap<Vec<AdvertiserUrlFilter>>>::empty(),
            r.ignore_list@ == Set::<Seq<char>>::empty(),
            r.legacy_list@ == Set::<Seq<char>>::empty(),
            r.all_include_regions@ == Set::<Seq<char>>::empty(),
            r.source is None,
            r.source_url is None,
            r.last_updated is None,
            r.refresh_rate_secs == 0,
            r.defaults.advertiser_urls@.len() == 0,
            r.defaults.impression_hosts@.len() == 0,
            r.defaults.click_hosts@.len() == 0,
            r.defaults.image_hosts@.len() == 0,
            !r.excluded_countries_200,
    {
        AdmFilter {
            advertiser_filters: AdmAdvertiserSettings { adm_advertisers: StrMap::new() },
            ignore_list: StrSet::new(),
            legacy_list: StrSet::new(),
            all_include_regions: StrSet::new(),
            source: None,
            source_url: None,
            last_updated: None,
            refresh_rate_secs: 0,
            defaults: AdmDefaults::empty(),
            excluded_countries_200: false,
        }
    }
}

} // verus!
