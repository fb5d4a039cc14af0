//! The tile cache: what is kept per audience, when it expires, what is served from
//! it, and how an entry moves between populating, fresh and refreshing.
use vstd::prelude::*;
use vstd::string::*;

use crate::adm::tiles::{response_json, TileResponse};
use crate::text::{decimal, decimal_string};
use crate::user_agent::{FormFactor, OsFamily};
use vstd::utf8::encode_utf8;

verus! {

/// The key under which tiles are cached: the audience they were fetched for.
#[derive(Clone, Debug, PartialEq, Eq, Hash)]
pub struct AudienceKey {
    /// Country in ISO 3166-1 alpha-2 format
    pub country_code: String,
    /// Region/subdivision (e.g. a US state) in ISO 3166-2 format
    pub region_code: Option<String>,
    /// The DMA code
    pub dma_code: Option<u16>,
    /// The form-factor (e.g. desktop, phone) of the device
    pub form_factor: FormFactor,
    /// Platform OS
    pub os_family: OsFamily,
    /// Only serve legacy
    pub legacy_only: bool,
}

/// What is cached for an audience: a JSON response, or nothing to serve.
#[derive(Clone, Debug)]
pub enum TilesContent {
    Json(String),
    Empty,
}

impl TilesContent {
    /// The size (in bytes) of the cached text.
    pub fn size(&self) -> (r: usize)
        ensures
            r == match self {
                TilesContent::Json(j) => encode_utf8(j@).len() as usize,
                TilesContent::Empty => 0,
            },
    {
        match self {
            TilesContent::Json(json) => json.as_str().len(),
            TilesContent::Empty => 0,
        }
    }
}

/// Cached tiles and their lifetimes (seconds since the epoch).
#[derive(Clone, Debug)]
pub struct Tiles {
    pub content: TilesContent,
    /// When this is in need of a refresh (the `Cache-Control` `max-age`)
    pub expiry: u64,
    /// After expiry the stale tiles are still served until they are refreshed, and
    /// not after this
    pub fallback_expiry: u64,
    /// Answer 200 with an empty list instead of 204 where there is nothing to serve
    pub always_ok: bool,
}

/// The text served where there are no tiles but an answer is owed.
pub open spec fn empty_tiles_json() -> Seq<char> {
    "{\"tiles\":[]}"@
}

/// The text served where there are no tiles but an answer is owed: `{"tiles":[]}`.
pub fn empty_tiles() -> (r: String)
    ensures
        r@ == empty_tiles_json(),
{
    String::from_str("{\"tiles\":[]}")
}

/// What is sent back to the user agent.
#[derive(Debug)]
pub struct TilesReply {
    /// The HTTP status: 200, 204 or 304.
    pub status: u16,
    /// The `Cache-Control` header, where there is one.
    pub cache_control: Option<String>,
    /// The JSON body, where there is one.
    pub body: Option<String>,
}

/// Whether a moment (`expiry`) has come by `now`.
pub open spec fn expired_by(expiry: u64, now: u64) -> bool {
    expiry <= now
}

/// `a - b`, or 0 where `b` is later.
pub open spec fn secs_left(a: u64, b: u64) -> u64 {
    if a > b {
        (a - b) as u64
    } else {
        0
    }
}

/// The `Cache-Control` header of tiles at `now`: private, `max-age` the seconds to
/// expiry (as a 32-bit number, truncated), `stale-if-error` the seconds to the end of
/// the fallback period.
pub open spec fn cache_control_text(t: Tiles, now: u64) -> Seq<char> {
    "private, max-age="@ + decimal((secs_left(t.expiry, now) as u32) as nat) + ", stale-if-error="@ + decimal(
        secs_left(t.fallback_expiry, now) as nat,
    )
}

/// The reply that tiles make at `now`.
pub open spec fn reply_of(t: Tiles, cache_control: bool, now: u64) -> (u16, Option<Seq<char>>, Option<Seq<char>>) {
    let cc = if cache_control {
        Some(cache_control_text(t, now))
    } else {
        None
    };
    match t.content {
        TilesContent::Json(j) => (200, cc, Some(j@)),
        TilesContent::Empty => if t.always_ok {
            (200, cc, Some(empty_tiles_json()))
        } else {
            (204, cc, None)
        },
    }
}

/// The values of a reply.
pub open spec fn reply_view(r: TilesReply) -> (u16, Option<Seq<char>>, Option<Seq<char>>) {
    (
        r.status,
        match r.cache_control {
            Some(c) => Some(c@),
            None => None,
        },
        match r.body {
            Some(b) => Some(b@),
            None => None,
        },
    )
}

/// The current time in seconds since the epoch, 0 where the clock reads earlier.
/// Nothing is claimed of the result.
#[verifier::external_body]
pub(crate) fn now_secs() -> u64 {
    std::time::SystemTime::now().duration_since(std::time::UNIX_EPOCH).map(|d| d.as_secs()).unwrap_or(0)
}

impl TilesContent {
    /// A copy of the content.
    pub fn duplicate(&self) -> (r: TilesContent)
        ensures
            r == *self,
    {
        match self {
            TilesContent::Json(j) => TilesContent::Json(j.clone()),
            TilesContent::Empty => TilesContent::Empty,
        }
    }
}

/// When a lifetime of `ttl` seconds that starts at `now` ends: `now + ttl`, or the end
/// of time where that is past it.
pub open spec fn lifetime_end(now: u64, ttl: u64) -> u64 {
    if now + ttl > u64::MAX {
        u64::MAX
    } else {
        (now + ttl) as u64
    }
}

impl Tiles {
    /// A copy of the tiles.
    pub fn duplicate(&self) -> (r: Tiles)
        ensures
            r == *self,
    {
        Tiles {
            content: self.content.duplicate(),
            expiry: self.expiry,
            fallback_expiry: self.fallback_expiry,
            always_ok: self.always_ok,
        }
    }

    /// Tiles with nothing to serve, fetched at `now`.
    pub fn empty_at(ttl: u64, fallback_ttl: u64, always_ok: bool, now: u64) -> (r: Tiles)
        requires
            now + ttl <= u64::MAX,
            now + fallback_ttl <= u64::MAX,
        ensures
            r.content is Empty,
            r.expiry == now + ttl,
            r.fallback_expiry == now + fallback_ttl,
            r.always_ok == always_ok,
    {
        Tiles { content: TilesContent::Empty, expiry: now + ttl, fallback_expiry: now + fallback_ttl, always_ok }
    }

    /// Tiles with nothing to serve, fetched now (lifetimes past the end of time end
    /// there).
    pub fn empty(ttl: u64, fallback_ttl: u64, always_ok: bool) -> (r: Tiles)
        ensures
            r.content is Empty,
            r.always_ok == always_ok,
            exists|now: u64|
                r.expiry == #[trigger] lifetime_end(now, ttl) && r.fallback_expiry == lifetime_end(now, fallback_ttl),
    {
        let now = now_secs();
        let life = if ttl > u64::MAX - now {
            u64::MAX - now
        } else {
            ttl
        };
        let fallback_life = if fallback_ttl > u64::MAX - now {
            u64::MAX - now
        } else {
            fallback_ttl
        };
        let r = Self::empty_at(life, fallback_life, always_ok, now);
        assert(r.expiry == lifetime_end(now, ttl) && r.fallback_expiry == lifetime_end(now, fallback_ttl));
        r
    }

    /// The tiles of a partner response fetched at `now`: its JSON text, or nothing to
    /// serve where it has no tiles.
    pub fn new_at(tile_response: TileResponse, ttl: u64, fallback_ttl: u64, always_ok: bool, now: u64) -> (r: Tiles)
        requires
            now + ttl <= u64::MAX,
            now + fallback_ttl <= u64::MAX,
        ensures
            tile_response.tiles@.len() == 0 ==> r.content is Empty,
            tile_response.tiles@.len() > 0 ==> (r.content matches TilesContent::Json(j) && j@ == response_json(
                tile_response.tiles@,
            )),
            r.expiry == now + ttl,
            r.fallback_expiry == now + fallback_ttl,
            r.always_ok == always_ok,
    {
        let empty = Self::empty_at(ttl, fallback_ttl, always_ok, now);
        if tile_response.tiles.len() == 0 {
            return empty;
        }
        let json = tile_response.to_json();
        Tiles { content: TilesContent::Json(json), ..empty }
    }

    /// The tiles of a partner response fetched now (see `new_at`; lifetimes past the
    /// end of time end there). Writing the response cannot fail.
    pub fn new(tile_response: TileResponse, ttl: u64, fallback_ttl: u64, always_ok: bool) -> (r: Result<Tiles, crate::error::HandlerError>)
        ensures
            r matches Ok(t) && t.always_ok == always_ok && (tile_response.tiles@.len() == 0 <==> t.content is Empty)
                && (t.content matches TilesContent::Json(j) ==> j@ == response_json(tile_response.tiles@)),
            r matches Ok(t) ==> exists|now: u64|
                t.expiry == #[trigger] lifetime_end(now, ttl) && t.fallback_expiry == lifetime_end(now, fallback_ttl),
    {
        let now = now_secs();
        let life = if ttl > u64::MAX - now {
            u64::MAX - now
        } else {
            ttl
        };
        let fallback_life = if fallback_ttl > u64::MAX - now {
            u64::MAX - now
        } else {
            fallback_ttl
        };
        let r = Self::new_at(tile_response, life, fallback_life, always_ok, now);
        assert(r.expiry == lifetime_end(now, ttl) && r.fallback_expiry == lifetime_end(now, fallback_ttl));
        Ok(r)
    }

    /// Whether the tiles need a refresh at `now`.
    pub fn expired_at(&self, now: u64) -> (r: bool)
        ensures
            r == (self.expiry <= now),
    {
        self.expiry <= now
    }

    /// Whether the tiles need a refresh now.
    pub fn expired(&self) -> (r: bool)
        ensures
            exists|now: u64| r == #[trigger] expired_by(self.expiry, now),
    {
        let now = now_secs();
        let r = self.expired_at(now);
        assert(r == expired_by(self.expiry, now));
        r
    }

    /// Whether the tiles are no longer to be served at `now`, not even as a fallback.
    pub fn fallback_expired_at(&self, now: u64) -> (r: bool)
        ensures
            r == (self.fallback_expiry <= now),
    {
        self.fallback_expiry <= now
    }

    /// Whether the tiles are no longer to be served now, not even as a fallback.
    pub fn fallback_expired(&self) -> (r: bool)
        ensures
            exists|now: u64| r == #[trigger] expired_by(self.fallback_expiry, now),
    {
        let now = now_secs();
        let r = self.fallback_expired_at(now);
        assert(r == expired_by(self.fallback_expiry, now));
        r
    }

    /// The `Cache-Control` header of the tiles at `now`.
    pub fn cache_control_header_at(&self, now: u64) -> (r: String)
        ensures
            r@ == cache_control_text(*self, now),
    {
        let max_age: u64 = if self.expiry > now {
            self.expiry - now
        } else {
            0
        };
        let stale_if_error: u64 = if self.fallback_expiry > now {
            self.fallback_expiry - now
        } else {
            0
        };
        let mut out = String::from_str("private, max-age=");
        out.append(decimal_string((max_age as u32) as u64).as_str());
        out.append(", stale-if-error=");
        out.append(decimal_string(stale_if_error).as_str());
        out
    }

    /// The reply that the tiles make at `now`: their JSON with 200, or where there is
    /// nothing to serve 200 with an empty list (`always_ok`) or 204; with the
    /// `Cache-Control` header where it is asked for.
    pub fn to_response_at(&self, cache_control_header: bool, now: u64) -> (r: TilesReply)
        ensures
            reply_view(r) == reply_of(*self, cache_control_header, now),
    {
        let cc = if cache_control_header {
            Some(self.cache_control_header_at(now))
        } else {
            None
        };
        match &self.content {
            TilesContent::Json(json) => TilesReply { status: 200, cache_control: cc, body: Some(json.clone()) },
            TilesContent::Empty => {
                if self.always_ok {
                    TilesReply { status: 200, cache_control: cc, body: Some(empty_tiles()) }
                } else {
                    TilesReply { status: 204, cache_control: cc, body: None }
                }
            },
        }
    }

    /// The reply that the tiles make now.
    pub fn to_response(&self, cache_control_header: bool) -> (r: TilesReply)
        ensures
            exists|now: u64| reply_view(r) == reply_of(*self, cache_control_header, now),
    {
        self.to_response_at(cache_control_header, now_secs())
    }
}

/// The state of a cache entry, with respect to any outstanding partner request.
#[derive(Clone, Debug)]
pub enum TilesState {
    /// A task is currently populating this entry
    Populating,
    /// Tiles that haven't expired (or been identified as expired) yet
    Fresh { tiles: Tiles },
    /// A task is currently refreshing this expired entry
    Refreshing { tiles: Tiles },
}

impl TilesState {
    /// The size (in bytes) of what the entry holds.
    pub fn size(&self) -> (r: usize)
        ensures
            r == match self {
                TilesState::Populating => 0,
                TilesState::Fresh { tiles } => match tiles.content {
                    TilesContent::Json(j) => encode_utf8(j@).len() as usize,
                    TilesContent::Empty => 0,
                },
                TilesState::Refreshing { tiles } => match tiles.content {
                    TilesContent::Json(j) => encode_utf8(j@).len() as usize,
                    TilesContent::Empty => 0,
                },
            },
    {
        match self {
            TilesState::Populating => 0,
            TilesState::Fresh { tiles } => tiles.content.size(),
            TilesState::Refreshing { tiles } => tiles.content.size(),
        }
    }

    /// Whether another task is populating the entry.
    pub fn is_populating(&self) -> (r: bool)
        ensures
            r == (self is Populating),
    {
        match self {
            TilesState::Populating => true,
            _ => false,
        }
    }
}

/// The entry and fallback tiles after a refresh begins at `now`: fresh tiles that
/// have expired become refreshing and are kept as the fallback; anything else is left
/// as it is, with no fallback.
pub open spec fn refresh_begun(state: TilesState, now: u64) -> (TilesState, Option<Tiles>) {
    match state {
        TilesState::Fresh { tiles } => if tiles.expiry <= now {
            (TilesState::Refreshing { tiles }, Some(tiles))
        } else {
            (state, None)
        },
        _ => (state, None),
    }
}

/// The entry after an abandoned refresh: refreshing tiles become fresh (though
/// expired) again, so that a later request retries; anything else is left as it is.
pub open spec fn refresh_abandoned(state: TilesState) -> TilesState {
    match state {
        TilesState::Refreshing { tiles } => TilesState::Fresh { tiles },
        _ => state,
    }
}

/// Begin a refresh of an entry at `now` (see `refresh_begun`).
pub fn begin_refresh(state: TilesState, now: u64) -> (r: (TilesState, Option<Tiles>))
    ensures
        r == refresh_begun(state, now),
{
    match state {
        TilesState::Fresh { tiles } => {
            if tiles.expired_at(now) {
                let fallback = tiles.duplicate();
                (TilesState::Refreshing { tiles }, Some(fallback))
            } else {
                (TilesState::Fresh { tiles }, None)
            }
        },
        other => (other, None),
    }
}


/// End an abandoned refresh of an entry (see `refresh_abandoned`).
pub fn abandon_refresh(state: TilesState) -> (r: TilesState)
    ensures
        r == refresh_abandoned(state),
{
    match state {
        TilesState::Refreshing { tiles } => TilesState::Fresh { tiles },
        other => other,
    }
}

/// Abandoning a refresh puts back the entry that was there before it began, whatever
/// the entry was, except one that another task was already refreshing.
pub proof fn lemma_abandon_restores(state: TilesState, now: u64)
    requires
        !(state is Refreshing),
    ensures
        refresh_abandoned(refresh_begun(state, now).0) == state,
{
}

/// A refresh hands out fallback tiles exactly when it takes over fresh tiles that have
/// expired, and the fallback is those tiles.
pub proof fn lemma_refresh_fallback(state: TilesState, now: u64)
    ensures
        refresh_begun(state, now).1 is Some <==> (state matches TilesState::Fresh { tiles } && tiles.expiry <= now),
        refresh_begun(state, now).1 matches Some(t) ==> (state == (TilesState::Fresh { tiles: t })
            && refresh_begun(state, now).0 == (TilesState::Refreshing { tiles: t })),
{
}

/// What to answer with stale tiles at `now`: nothing (204, no `Cache-Control`) once
/// their fallback period is over, else their usual reply.
pub open spec fn fallback_reply(t: Tiles, cache_control: bool, now: u64) -> (u16, Option<Seq<char>>, Option<Seq<char>>) {
    if t.fallback_expiry <= now {
        (204, None, None)
    } else {
        reply_of(t, cache_control, now)
    }
}

/// Render stale (expired) fallback tiles at `now` (see `fallback_reply`).
pub fn fallback_response(cache_control_header: bool, tiles: &Tiles, now: u64) -> (r: TilesReply)
    ensures
        reply_view(r) == fallback_reply(*tiles, cache_control_header, now),
{
    if tiles.fallback_expired_at(now) {
        TilesReply { status: 204, cache_control: None, body: None }
    } else {
        tiles.to_response_at(cache_control_header, now)
    }
}


impl AudienceKey {
    /// A copy of the key.
    pub fn duplicate(&self) -> (r: AudienceKey)
        ensures
            r == *self,
    {
        AudienceKey {
            country_code: self.country_code.clone(),
            region_code: match &self.region_code {
                Some(r) => Some(r.clone()),
                None => None,
            },
            dma_code: self.dma_code,
            form_factor: self.form_factor,
            os_family: self.os_family,
            legacy_only: self.legacy_only,
        }
    }
}

#[verifier::external_type_specification]
#[verifier::external_body]
#[verifier::reject_recursive_types(K)]
#[verifier::reject_recursive_types(V)]
#[verifier::reject_recursive_types(S)]
pub struct ExDashMap<K, V, S>(dashmap::DashMap<K, V, S>);

/// `DashMap::with_capacity`. Nothing is claimed of the new map.
#[verifier::external_body]
fn map_with_capacity(capacity: usize) -> dashmap::DashMap<AudienceKey, TilesState> {
    dashmap::DashMap::with_capacity(capacity)
}

/// `DashMap::get`, handing out a copy of the entry. The map is shared with the other
/// request tasks, which change it at any time, so nothing is claimed of the result.
#[verifier::external_body]
fn map_get(map: &dashmap::DashMap<AudienceKey, TilesState>, key: &AudienceKey) -> Option<TilesState> {
    map.get(key).map(|r| r.value().clone())
}

/// `DashMap::insert`. The map is shared with the other request tasks, so nothing is
/// claimed of its contents afterwards.
#[verifier::external_body]
fn map_insert(map: &dashmap::DashMap<AudienceKey, TilesState>, key: AudienceKey, state: TilesState) {
    map.insert(key, state);
}

/// `DashMap::alter` with `begin_refresh` at `now`, handing out the fallback tiles that
/// it returned (none where the key is absent and the closure is not called). Believed:
/// fallback tiles are tiles that `begin_refresh` handed out, so they had expired by
/// `now`. The map is shared with the other request tasks, so nothing is claimed of its
/// contents.
#[verifier::external_body]
fn map_begin_refresh(map: &dashmap::DashMap<AudienceKey, TilesState>, key: &AudienceKey, now: u64) -> (r: Option<
    Tiles,
>)
    ensures
        r matches Some(t) ==> t.expiry <= now,
{
    let mut fallback = None;
    map.alter(key, |_, state| {
        let (next, tiles) = begin_refresh(state, now);
        fallback = tiles;
        next
    });
    fallback
}

/// `DashMap::alter` with `abandon_refresh`. Nothing is claimed of the shared map.
#[verifier::external_body]
fn map_abandon_refresh(map: &dashmap::DashMap<AudienceKey, TilesState>, key: &AudienceKey) {
    map.alter(key, |_, state| abandon_refresh(state));
}

/// `DashMap::remove_if` with `TilesState::is_populating`. Nothing is claimed of the
/// shared map.
#[verifier::external_body]
fn map_remove_populating(map: &dashmap::DashMap<AudienceKey, TilesState>, key: &AudienceKey) {
    map.remove_if(key, |_, state| state.is_populating());
}

/// `DashMap::iter`, handing out the size of each entry. Nothing is claimed of the
/// shared map.
#[verifier::external_body]
fn map_sizes(map: &dashmap::DashMap<AudienceKey, TilesState>) -> Vec<usize> {
    map.iter().map(|r| r.value().size()).collect()
}

/// The tile cache, shared by all requests. Its entries change under other tasks at
/// any time, so what a read returns is whatever some task last left there.
pub struct TilesCache {
    inner: dashmap::DashMap<AudienceKey, TilesState>,
}

/// A pending write to one cache entry: `insert` completes it, `abandon` resets the
/// temporary state that `prepare_write` set.
pub struct WriteHandle<'a> {
    pub cache: &'a TilesCache,
    pub audience_key: AudienceKey,
    pub expired: bool,
    /// The stale tiles to serve should the refresh fail.
    pub fallback_tiles: Option<Tiles>,
}

/// The sum of a list of sizes.
pub open spec fn size_total(sizes: Seq<usize>) -> nat
    decreases sizes.len(),
{
    if sizes.len() == 0 {
        0
    } else {
        size_total(sizes.drop_last()) + (sizes.last() as nat)
    }
}

impl TilesCache {
    /// An empty cache with room for `capacity` entries.
    pub fn new(capacity: usize) -> (r: TilesCache) {
        TilesCache { inner: map_with_capacity(capacity) }
    }

    /// A copy of the entry for an audience, as some task last left it.
    pub fn get(&self, audience_key: &AudienceKey) -> (r: Option<TilesState>) {
        map_get(&self.inner, audience_key)
    }

    /// Prepare to write the entry of an audience at `now`: an expired entry becomes
    /// refreshing (its tiles are kept as the fallback), any other becomes populating.
    pub fn prepare_write(&self, audience_key: &AudienceKey, expired: bool, now: u64) -> (r: WriteHandle<'_>)
        ensures
            r.audience_key == *audience_key,
            r.expired == expired,
            !expired ==> r.fallback_tiles is None,
            r.fallback_tiles matches Some(t) ==> t.expiry <= now,
    {
        let fallback_tiles = if expired {
            map_begin_refresh(&self.inner, audience_key, now)
        } else {
            map_insert(&self.inner, audience_key.duplicate(), TilesState::Populating);
            None
        };
        WriteHandle { cache: self, audience_key: audience_key.duplicate(), expired, fallback_tiles }
    }

    /// The number of entries and the total size of what they hold (at most
    /// `u64::MAX`), as the entries stood when they were walked (see `size_stats`).
    pub fn stats(&self) -> (r: (usize, u64))
        ensures
            exists|sizes: Seq<usize>| r == saturated_stats(sizes),
    {
        let sizes = map_sizes(&self.inner);
        size_stats(&sizes)
    }
}

/// The number of sizes and their sum, at most `u64::MAX`.
pub open spec fn saturated_stats(sizes: Seq<usize>) -> (usize, u64) {
    (
        sizes.len() as usize,
        if size_total(sizes) > u64::MAX {
            u64::MAX
        } else {
            size_total(sizes) as u64
        },
    )
}

/// The number of entries of a list of sizes and their total, at most `u64::MAX`.
pub fn size_stats(sizes: &Vec<usize>) -> (r: (usize, u64))
    ensures
        r.0 == sizes@.len(),
        r.1 == if size_total(sizes@) > u64::MAX {
            u64::MAX as nat
        } else {
            size_total(sizes@)
        },
        r == saturated_stats(sizes@),
{
    let mut total: u64 = 0;
    let mut i: usize = 0;
    while i < sizes.len()
        invariant
            i <= sizes@.len(),
            total == if size_total(sizes@.take(i as int)) > u64::MAX {
                u64::MAX as nat
            } else {
                size_total(sizes@.take(i as int))
            },
        decreases sizes@.len() - i,
    {
        assert(sizes@.take(i + 1).drop_last() =~= sizes@.take(i as int));
        total = total.saturating_add(sizes[i] as u64);
        i = i + 1;
    }
    assert(sizes@.take(i as int) =~= sizes@);
    (sizes.len(), total)
}

impl<'a> WriteHandle<'a> {
    /// Store the new state of the entry.
    pub fn insert(self, tiles: TilesState) {
        map_insert(&self.cache.inner, self.audience_key, tiles);
    }

    /// Give up the write: a refreshing entry becomes fresh (though expired) again, a
    /// populating one is removed, so that a later request retries.
    pub fn abandon(self) {
        if self.expired {
            map_abandon_refresh(&self.cache.inner, &self.audience_key);
        } else {
            map_remove_populating(&self.cache.inner, &self.audience_key);
        }
    }
}

} // verus!
