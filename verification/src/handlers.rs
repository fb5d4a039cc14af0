//! The decisions of the `/v1/tiles` handler: what to answer from the cache, when to
//! ask the partner, and what to cache and answer once the partner has replied.
use vstd::prelude::*;

use crate::adm::tiles::{response_json, TileResponse};
use crate::error::{HandlerError, HandlerErrorKind, HandlerResult};
use crate::server::cache::{
    empty_tiles, empty_tiles_json, fallback_reply, fallback_response, reply_of, reply_view, Tiles,
    TilesContent, TilesReply, TilesState,
};
use crate::tags::Tags;

verus! {

/// What to do with a tiles request before any partner request.
pub enum TilesPlan {
    /// Answer at once, counting `metric` where there is one.
    Answer { reply: TilesReply, metric: Option<&'static str> },
    /// Ask the partner; `expired` where cached tiles are to be refreshed.
    Fetch { expired: bool },
}

/// A plan as values.
pub enum PlanView {
    Answer((u16, Option<Seq<char>>, Option<Seq<char>>), Option<Seq<char>>),
    Fetch(bool),
}

/// The values of a plan.
pub open spec fn plan_view(p: TilesPlan) -> PlanView {
    match p {
        TilesPlan::Answer { reply, metric } => PlanView::Answer(
            reply_view(reply),
            match metric {
                Some(m) => Some(m@),
                None => None,
            },
        ),
        TilesPlan::Fetch { expired } => PlanView::Fetch(expired),
    }
}

/// The plan for a request at `now`: a country that no partner serves gets an empty
/// answer (200 with an empty list where `excluded_countries_200`, else 204); an entry
/// being populated gets 304; fresh tiles are served; refreshing (stale) tiles are
/// served as a fallback; expired fresh tiles or no entry lead to a partner request.
pub open spec fn planned(
    included: bool,
    excluded_countries_200: bool,
    cached: Option<TilesState>,
    cache_control: bool,
    now: u64,
) -> PlanView {
    if !included {
        PlanView::Answer(
            if excluded_countries_200 {
                (200, None, Some(empty_tiles_json()))
            } else {
                (204, None, None)
            },
            None,
        )
    } else {
        match cached {
            None => PlanView::Fetch(false),
            Some(TilesState::Populating) => PlanView::Answer((304, None, None), Some("tiles_cache.miss.populating"@)),
            Some(TilesState::Fresh { tiles }) => if tiles.expiry <= now {
                PlanView::Fetch(true)
            } else {
                PlanView::Answer(reply_of(tiles, cache_control, now), Some("tiles_cache.hit"@))
            },
            Some(TilesState::Refreshing { tiles }) => PlanView::Answer(
                fallback_reply(tiles, cache_control, now),
                Some("tiles_cache.hit.refreshing"@),
            ),
        }
    }
}

/// Decide what to do with a tiles request (see `planned`). `included` is whether some
/// partner serves the user's country, `cached` the cache entry of the audience.
pub fn plan_tiles_request(
    included: bool,
    excluded_countries_200: bool,
    cached: Option<TilesState>,
    cache_control_header: bool,
    now: u64,
) -> (r: TilesPlan)
    ensures
        plan_view(r) == planned(included, excluded_countries_200, cached, cache_control_header, now),
{
    if !included {
        let reply = if excluded_countries_200 {
            TilesReply { status: 200, cache_control: None, body: Some(empty_tiles()) }
        } else {
            TilesReply { status: 204, cache_control: None, body: None }
        };
        return TilesPlan::Answer { reply, metric: None };
    }
    match cached {
        None => TilesPlan::Fetch { expired: false },
        Some(TilesState::Populating) => TilesPlan::Answer {
            reply: TilesReply { status: 304, cache_control: None, body: None },
            metric: Some("tiles_cache.miss.populating"),
        },
        Some(TilesState::Fresh { tiles }) => {
            if tiles.expired_at(now) {
                TilesPlan::Fetch { expired: true }
            } else {
                TilesPlan::Answer {
                    reply: tiles.to_response_at(cache_control_header, now),
                    metric: Some("tiles_cache.hit"),
                }
            }
        },
        Some(TilesState::Refreshing { tiles }) => TilesPlan::Answer {
            reply: fallback_response(cache_control_header, &tiles, now),
            metric: Some("tiles_cache.hit.refreshing"),
        },
    }
}

/// What to do once the partner has answered.
#[derive(Debug)]
pub struct FetchResolution {
    /// The new cache entry; where there is none, the pending write is abandoned.
    pub cache_write: Option<TilesState>,
    /// The answer, or the error to render.
    pub reply: Result<TilesReply, HandlerError>,
    /// The metric to count.
    pub metric: &'static str,
    /// The error to report (with the request's tags).
    pub report: Option<HandlerError>,
}

/// Resolve a partner request at `now`. Tiles are cached fresh (`ttl` and
/// `fallback_ttl` from now) and served. A bad partner response caches an empty entry,
/// is reported with a `level` tag of `warning`, and gets 204. Any other error tags the
/// reason (`timeout`, `connect`) and whether there is a fallback, leaves the entry to
/// be reset, and serves the fallback tiles where there are some, else the error.
pub fn resolve_fetch(
    result: HandlerResult<TileResponse>,
    fallback: Option<Tiles>,
    tags: &mut Tags,
    ttl: u64,
    fallback_ttl: u64,
    always_ok: bool,
    cache_control_header: bool,
    now: u64,
) -> (r: FetchResolution)
    requires
        now + ttl <= u64::MAX,
        now + fallback_ttl <= u64::MAX,
    ensures
        match result {
            Ok(resp) => {
                &&& r.cache_write matches Some(TilesState::Fresh { tiles })
                &&& r.cache_write->Some_0->Fresh_tiles.expiry == now + ttl
                &&& r.cache_write->Some_0->Fresh_tiles.fallback_expiry == now + fallback_ttl
                &&& r.cache_write->Some_0->Fresh_tiles.always_ok == always_ok
                &&& (resp.tiles@.len() == 0 ==> r.cache_write->Some_0->Fresh_tiles.content is Empty)
                &&& (resp.tiles@.len() > 0 ==> r.cache_write->Some_0->Fresh_tiles.content == TilesContent::Json(
                    r.cache_write->Some_0->Fresh_tiles.content->Json_0,
                ) && r.cache_write->Some_0->Fresh_tiles.content->Json_0@ == response_json(resp.tiles@))
                &&& r.reply matches Ok(rep) && reply_view(rep) == reply_of(
                    r.cache_write->Some_0->Fresh_tiles,
                    cache_control_header,
                    now,
                )
                &&& r.metric@ == "tiles_cache.miss"@
                &&& r.report is None
                &&& *final(tags) == *old(tags)
            },
            Err(e) => if e.kind is BadAdmResponse {
                &&& r.cache_write matches Some(TilesState::Fresh { tiles })
                &&& r.cache_write->Some_0->Fresh_tiles.content is Empty
                &&& r.cache_write->Some_0->Fresh_tiles.expiry == now + ttl
                &&& r.cache_write->Some_0->Fresh_tiles.fallback_expiry == now + fallback_ttl
                &&& r.cache_write->Some_0->Fresh_tiles.always_ok == always_ok
                &&& r.reply matches Ok(rep) && reply_view(rep) == (204u16, None::<Seq<char>>, None::<Seq<char>>)
                &&& r.metric@ == "tiles.invalid"@
                &&& r.report matches Some(rep) && rep.kind@ == e.kind@
                &&& final(tags).tag_map() == old(tags).tag_map().union_prefer_right(e.tags.tag_map()).insert(
                    "level"@,
                    "warning"@,
                )
                &&& final(tags).extra_map() == old(tags).extra_map().union_prefer_right(e.tags.extra_map())
                &&& final(tags).metric_map() == old(tags).metric_map().union_prefer_right(e.tags.metric_map())
            } else {
                let reasoned = match e.kind {
                    HandlerErrorKind::Reqwest(f) => if f.is_timeout {
                        old(tags).tag_map().insert("reason"@, "timeout"@)
                    } else if f.is_connect {
                        old(tags).tag_map().insert("reason"@, "connect"@)
                    } else {
                        old(tags).tag_map()
                    },
                    _ => old(tags).tag_map(),
                };
                &&& r.cache_write is None
                &&& r.metric@ == "tiles.get.error"@
                &&& r.report is None
                &&& final(tags).tag_map() == if fallback is Some {
                    reasoned.insert("fallback"@, "true"@)
                } else {
                    reasoned
                }
                &&& final(tags).extra_map() == old(tags).extra_map()
                &&& final(tags).metric_map() == old(tags).metric_map()
                &&& match fallback {
                    Some(t) => r.reply matches Ok(rep) && reply_view(rep) == fallback_reply(t, cache_control_header, now),
                    None => r.reply matches Err(e2) && e2 == e,
                }
            },
        },
{
    proof {
        reveal_strlit("level");
        reveal_strlit("warning");
        reveal_strlit("reason");
        reveal_strlit("timeout");
        reveal_strlit("connect");
        reveal_strlit("fallback");
        reveal_strlit("true");
    }
    match result {
        Ok(response) => {
            let tiles = Tiles::new_at(response, ttl, fallback_ttl, always_ok, now);
            let reply = tiles.to_response_at(cache_control_header, now);
            FetchResolution {
                cache_write: Some(TilesState::Fresh { tiles }),
                reply: Ok(reply),
                metric: "tiles_cache.miss",
                report: None,
            }
        },
        Err(e) => {
            let is_bad_response = match &e.kind {
                HandlerErrorKind::BadAdmResponse(_) => true,
                _ => false,
            };
            if is_bad_response {
                let HandlerError { kind, tags: error_tags } = e;
                tags.extend(*error_tags);
                tags.add_tag("level", "warning");
                let empty = Tiles::empty_at(ttl, fallback_ttl, always_ok, now);
                FetchResolution {
                    cache_write: Some(TilesState::Fresh { tiles: empty }),
                    reply: Ok(TilesReply { status: 204, cache_control: None, body: None }),
                    metric: "tiles.invalid",
                    report: Some(HandlerError::new(kind)),
                }
            } else {
                match &e.kind {
                    HandlerErrorKind::Reqwest(f) => {
                        if f.is_timeout {
                            tags.add_tag("reason", "timeout");
                        } else if f.is_connect {
                            tags.add_tag("reason", "connect");
                        }
                    },
                    _ => {},
                }
                if fallback.is_some() {
                    tags.add_tag("fallback", "true");
                }
                let reply = match &fallback {
                    Some(t) => Ok(fallback_response(cache_control_header, t, now)),
                    None => Err(e),
                };
                FetchResolution { cache_write: None, reply, metric: "tiles.get.error", report: None }
            }
        },
    }
}


/// The parameters of the error test endpoint: whether to include the location.
pub struct ErrorParams {
    pub with_location: Option<bool>,
}

} // verus!
