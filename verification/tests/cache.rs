use contile::adm::tiles::{Tile, TileResponse};
use contile::error::{HandlerError, HandlerErrorKind, RequestFailure};
use contile::handlers::{plan_tiles_request, resolve_fetch, TilesPlan};
use contile::server::cache::{
    abandon_refresh, begin_refresh, fallback_response, size_stats, AudienceKey, Tiles, TilesCache, TilesContent,
    TilesState,
};
use contile::tags::Tags;
use contile::user_agent::{FormFactor, OsFamily};

fn tile(id: u64, name: &str) -> Tile {
    Tile {
        id,
        name: name.to_owned(),
        url: "https://example.com/".to_owned(),
        click_url: "https://example.com/c".to_owned(),
        image_url: "https://example.com/i.png".to_owned(),
        image_size: None,
        impression_url: "https://example.com/i".to_owned(),
        position: Some(1),
    }
}

#[test]
fn tiles_are_written_as_json() {
    let response = TileResponse { tiles: vec![tile(1, "A\"b"), tile(2, "C")] };
    let t = Tiles::new_at(response, 900, 10800, false, 1000);
    match &t.content {
        TilesContent::Json(j) => assert_eq!(
            j,
            "{\"tiles\":[{\"id\":1,\"name\":\"A\\\"b\",\"url\":\"https://example.com/\",\"click_url\":\"https://example.com/c\",\"image_url\":\"https://example.com/i.png\",\"image_size\":null,\"impression_url\":\"https://example.com/i\",\"position\":1},{\"id\":2,\"name\":\"C\",\"url\":\"https://example.com/\",\"click_url\":\"https://example.com/c\",\"image_url\":\"https://example.com/i.png\",\"image_size\":null,\"impression_url\":\"https://example.com/i\",\"position\":1}]}"
        ),
        TilesContent::Empty => panic!("expected tiles"),
    }
    assert_eq!(t.expiry, 1900);
    assert_eq!(t.fallback_expiry, 11800);
    let empty = Tiles::new_at(TileResponse { tiles: vec![] }, 900, 10800, false, 1000);
    assert!(matches!(empty.content, TilesContent::Empty));
}

#[test]
fn replies_and_cache_control() {
    let t = Tiles::new_at(TileResponse { tiles: vec![tile(1, "A")] }, 900, 10800, false, 1000);
    let r = t.to_response_at(true, 1100);
    assert_eq!(r.status, 200);
    assert_eq!(r.cache_control.as_deref(), Some("private, max-age=800, stale-if-error=10700"));
    let empty = Tiles::empty_at(900, 10800, false, 1000);
    let r = empty.to_response_at(false, 1000);
    assert_eq!(r.status, 204);
    assert!(r.body.is_none());
    assert!(r.cache_control.is_none());
    let ok_empty = Tiles::empty_at(900, 10800, true, 1000);
    let r = ok_empty.to_response_at(false, 1000);
    assert_eq!(r.status, 200);
    assert_eq!(r.body.as_deref(), Some("{\"tiles\":[]}"));
    assert!(t.expired_at(1900));
    assert!(!t.expired_at(1899));
    assert!(t.fallback_expired_at(11800));
    let stale = fallback_response(true, &t, 20000);
    assert_eq!(stale.status, 204);
    assert!(stale.cache_control.is_none());
}

#[test]
fn abandoning_a_refresh_restores_the_entry() {
    let t = Tiles::empty_at(10, 20, false, 0);
    let (state, fallback) = begin_refresh(TilesState::Fresh { tiles: t.duplicate() }, 10);
    assert!(matches!(state, TilesState::Refreshing { .. }));
    assert_eq!(fallback.expect("fallback").expiry, 10);
    assert!(matches!(abandon_refresh(state), TilesState::Fresh { .. }));
    let (state, fallback) = begin_refresh(TilesState::Fresh { tiles: t }, 9);
    assert!(matches!(state, TilesState::Fresh { .. }));
    assert!(fallback.is_none());
    let (state, fallback) = begin_refresh(TilesState::Populating, 9);
    assert!(state.is_populating());
    assert!(fallback.is_none());
}

#[test]
fn requests_are_planned_from_the_cache() {
    match plan_tiles_request(false, true, None, true, 0) {
        TilesPlan::Answer { reply, metric } => {
            assert_eq!(reply.status, 200);
            assert_eq!(reply.body.as_deref(), Some("{\"tiles\":[]}"));
            assert!(metric.is_none());
        }
        TilesPlan::Fetch { .. } => panic!("expected an answer"),
    }
    match plan_tiles_request(false, false, None, true, 0) {
        TilesPlan::Answer { reply, .. } => assert_eq!(reply.status, 204),
        TilesPlan::Fetch { .. } => panic!("expected an answer"),
    }
    assert!(matches!(plan_tiles_request(true, false, None, true, 0), TilesPlan::Fetch { expired: false }));
    match plan_tiles_request(true, false, Some(TilesState::Populating), true, 0) {
        TilesPlan::Answer { reply, metric } => {
            assert_eq!(reply.status, 304);
            assert_eq!(metric, Some("tiles_cache.miss.populating"));
        }
        TilesPlan::Fetch { .. } => panic!("expected an answer"),
    }
    let fresh = Tiles::new_at(TileResponse { tiles: vec![tile(1, "A")] }, 10, 100, false, 0);
    match plan_tiles_request(true, false, Some(TilesState::Fresh { tiles: fresh.duplicate() }), false, 5) {
        TilesPlan::Answer { reply, metric } => {
            assert_eq!(reply.status, 200);
            assert_eq!(metric, Some("tiles_cache.hit"));
        }
        TilesPlan::Fetch { .. } => panic!("expected an answer"),
    }
    assert!(matches!(
        plan_tiles_request(true, false, Some(TilesState::Fresh { tiles: fresh.duplicate() }), false, 10),
        TilesPlan::Fetch { expired: true }
    ));
    match plan_tiles_request(true, false, Some(TilesState::Refreshing { tiles: fresh }), false, 50) {
        TilesPlan::Answer { reply, metric } => {
            assert_eq!(reply.status, 200);
            assert_eq!(metric, Some("tiles_cache.hit.refreshing"));
        }
        TilesPlan::Fetch { .. } => panic!("expected an answer"),
    }
}

#[test]
fn partner_results_are_resolved() {
    let mut tags = Tags::new();
    let r = resolve_fetch(Ok(TileResponse { tiles: vec![tile(1, "A")] }), None, &mut tags, 10, 100, false, false, 0);
    assert!(matches!(r.cache_write, Some(TilesState::Fresh { .. })));
    assert_eq!(r.reply.ok().expect("reply").status, 200);
    assert_eq!(r.metric, "tiles_cache.miss");

    let bad = HandlerError::new(HandlerErrorKind::BadAdmResponse("nope".to_owned()));
    let r = resolve_fetch(Err(bad), None, &mut tags, 10, 100, false, false, 0);
    assert_eq!(r.reply.ok().expect("reply").status, 204);
    assert_eq!(r.metric, "tiles.invalid");
    assert!(r.report.is_some());
    assert_eq!(tags.get("level"), "warning");

    let mut tags = Tags::new();
    let timeout = HandlerError::new(HandlerErrorKind::Reqwest(RequestFailure {
        message: "timed out".to_owned(),
        is_timeout: true,
        is_connect: false,
    }));
    let stale = Tiles::new_at(TileResponse { tiles: vec![tile(1, "A")] }, 10, 100, false, 0);
    let r = resolve_fetch(Err(timeout), Some(stale), &mut tags, 10, 100, false, false, 50);
    assert!(r.cache_write.is_none());
    assert_eq!(r.reply.ok().expect("fallback").status, 200);
    assert_eq!(tags.get("reason"), "timeout");
    assert_eq!(tags.get("fallback"), "true");

    let mut tags = Tags::new();
    let other = HandlerError::internal("boom");
    let r = resolve_fetch(Err(other), None, &mut tags, 10, 100, false, false, 50);
    assert!(r.reply.is_err());
    assert_eq!(tags.get("fallback"), "None");
}

#[test]
fn the_cache_keeps_entries_per_audience() {
    let cache = TilesCache::new(4);
    let key = AudienceKey {
        country_code: "US".to_owned(),
        region_code: Some("CA".to_owned()),
        dma_code: None,
        form_factor: FormFactor::Desktop,
        os_family: OsFamily::Linux,
        legacy_only: false,
    };
    assert!(cache.get(&key).is_none());
    let handle = cache.prepare_write(&key, false, 0);
    assert!(handle.fallback_tiles.is_none());
    assert!(matches!(cache.get(&key), Some(TilesState::Populating)));
    handle.abandon();
    assert!(cache.get(&key).is_none());
    let handle = cache.prepare_write(&key, false, 0);
    handle.insert(TilesState::Fresh { tiles: Tiles::empty_at(10, 20, false, 0) });
    // Not yet expired at 9: no fallback, and the entry stays fresh.
    let handle = cache.prepare_write(&key, true, 9);
    assert!(handle.fallback_tiles.is_none());
    assert!(matches!(cache.get(&key), Some(TilesState::Fresh { .. })));
    let handle = cache.prepare_write(&key, true, 10);
    assert_eq!(handle.fallback_tiles.as_ref().map(|t| t.expiry), Some(10));
    assert!(matches!(cache.get(&key), Some(TilesState::Refreshing { .. })));
    handle.abandon();
    assert!(matches!(cache.get(&key), Some(TilesState::Fresh { .. })));
    assert_eq!(cache.stats(), (1, 0));
}

#[test]
fn lifetimes_start_now() {
    let before = std::time::SystemTime::now().duration_since(std::time::UNIX_EPOCH).expect("clock").as_secs();
    let e = Tiles::empty(10, 100, false);
    assert_eq!(e.fallback_expiry - e.expiry, 90);
    assert!(e.expiry >= before + 10);
    let t = Tiles::new(TileResponse { tiles: vec![tile(1, "A")] }, 5, 50, true).ok().expect("tiles");
    assert_eq!(t.fallback_expiry - t.expiry, 45);
    assert!(t.expiry >= before + 5);
    let far = Tiles::empty(u64::MAX, u64::MAX, false);
    assert_eq!(far.expiry, u64::MAX);
    assert_eq!(far.fallback_expiry, u64::MAX);
}

#[test]
fn cache_sizes_add_up_and_saturate() {
    assert_eq!(size_stats(&vec![]), (0, 0));
    assert_eq!(size_stats(&vec![3, 4, 5]), (3, 12));
    assert_eq!(size_stats(&vec![usize::MAX, usize::MAX, usize::MAX]).1, u64::MAX);
}
