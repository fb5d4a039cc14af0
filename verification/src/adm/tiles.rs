//! Tiles as the partner sends them and as the service returns them.
use vstd::prelude::*;
use vstd::string::*;

use crate::adm::filter::{AdmFilter, Verdict};
use crate::adm::settings::AdmPse;
use crate::error::{HandlerError, HandlerErrorKind, HandlerResult, KindView};
use crate::json::{member_index, obj_get, parse_json, push_quoted, quoted, serde_json_from_str, JsonValue};
use crate::tags::{Tags, TagsView};
use crate::text::{concat, copy_str, decimal, decimal_string};
use crate::user_agent::{DeviceInfo, FormFactor, OsFamily};

verus! {

/// The tile data provided by ADM
#[derive(Debug)]
pub struct AdmTile {
    pub id: u64,
    pub name: String,
    pub advertiser_url: String,
    pub click_url: String,
    pub image_url: String,
    pub impression_url: String,
    pub position: Option<u8>,
}

/// The partner's response: its tiles.
#[derive(Debug)]
pub struct AdmTileResponse {
    pub tiles: Vec<AdmTile>,
}

/// A tile as returned to the user agent.
#[derive(Debug)]
pub struct Tile {
    pub id: u64,
    pub name: String,
    pub url: String,
    pub click_url: String,
    pub image_url: String,
    pub image_size: Option<u32>,
    pub impression_url: String,
    pub position: Option<u8>,
}

/// The response message sent to the user agent.
#[derive(Debug)]
pub struct TileResponse {
    pub tiles: Vec<Tile>,
}

/// Whether `t` is the client form of the partner tile `a`.
pub open spec fn tile_of(a: AdmTile, t: Tile) -> bool {
    &&& t.id == a.id
    &&& t.name == a.name
    &&& t.url == a.advertiser_url
    &&& t.click_url == a.click_url
    &&& t.image_url == a.image_url
    &&& t.image_size is None
    &&& t.impression_url == a.impression_url
    &&& t.position == a.position
}

impl Tile {
    /// The client form of a partner tile: the advertiser URL becomes `url`, and no
    /// image size is known.
    pub fn from_adm_tile(tile: AdmTile) -> (r: Tile)
        ensures
            tile_of(tile, r),
    {
        Tile {
            id: tile.id,
            name: tile.name,
            url: tile.advertiser_url,
            click_url: tile.click_url,
            image_url: tile.image_url,
            image_size: None,
            impression_url: tile.impression_url,
            position: tile.position,
        }
    }
}


/// The JSON text of a tile: its fields in order, `image_size` `null` where unknown,
/// `position` left out where there is none.
pub open spec fn tile_json(t: Tile) -> Seq<char> {
    "{\"id\":"@ + decimal(t.id as nat) + ",\"name\":"@ + quoted(t.name@) + ",\"url\":"@ + quoted(t.url@)
        + ",\"click_url\":"@ + quoted(t.click_url@) + ",\"image_url\":"@ + quoted(t.image_url@)
        + ",\"image_size\":"@ + match t.image_size {
        Some(n) => decimal(n as nat),
        None => "null"@,
    } + ",\"impression_url\":"@ + quoted(t.impression_url@) + match t.position {
        Some(p) => ",\"position\":"@ + decimal(p as nat),
        None => Seq::<char>::empty(),
    } + "}"@
}

/// The JSON texts of tiles, separated by commas.
pub open spec fn tiles_json(ts: Seq<Tile>) -> Seq<char>
    decreases ts.len(),
{
    if ts.len() == 0 {
        Seq::<char>::empty()
    } else if ts.len() == 1 {
        tile_json(ts[0])
    } else {
        tiles_json(ts.drop_last()) + ","@ + tile_json(ts.last())
    }
}

/// The JSON text of a response: `{"tiles":[...]}`.
pub open spec fn response_json(r: Seq<Tile>) -> Seq<char> {
    "{\"tiles\":["@ + tiles_json(r) + "]}"@
}

fn push_tile(out: &mut String, t: &Tile)
    ensures
        final(out)@ == old(out)@ + tile_json(*t),
{
    let ghost start = out@;
    out.append("{\"id\":");
    out.append(decimal_string(t.id).as_str());
    out.append(",\"name\":");
    push_quoted(out, t.name.as_str());
    out.append(",\"url\":");
    push_quoted(out, t.url.as_str());
    out.append(",\"click_url\":");
    push_quoted(out, t.click_url.as_str());
    out.append(",\"image_url\":");
    push_quoted(out, t.image_url.as_str());
    out.append(",\"image_size\":");
    match t.image_size {
        Some(n) => out.append(decimal_string(n as u64).as_str()),
        None => out.append("null"),
    }
    out.append(",\"impression_url\":");
    push_quoted(out, t.impression_url.as_str());
    match t.position {
        Some(p) => {
            out.append(",\"position\":");
            out.append(decimal_string(p as u64).as_str());
        },
        None => {},
    }
    out.append("}");
    assert(out@ =~= start + tile_json(*t));
}

impl TileResponse {
    /// The JSON text of the response.
    pub fn to_json(&self) -> (r: String)
        ensures
            r@ == response_json(self.tiles@),
    {
        let mut out = String::new();
        out.append("{\"tiles\":[");
        let ghost start = out@;
        let mut i: usize = 0;
        assert(self.tiles@.take(0) =~= Seq::<Tile>::empty());
        while i < self.tiles.len()
            invariant
                i <= self.tiles@.len(),
                out@ == start + tiles_json(self.tiles@.take(i as int)),
            decreases self.tiles@.len() - i,
        {
            let ghost prev = self.tiles@.take(i as int);
            assert(self.tiles@.take(i + 1).drop_last() =~= prev);
            assert(self.tiles@.take(i + 1).last() == self.tiles@[i as int]);
            if i > 0 {
                out.append(",");
            } else {
                assert(self.tiles@.take(1)[0] == self.tiles@[0]);
            }
            push_tile(&mut out, &self.tiles[i]);
            assert(out@ =~= start + tiles_json(self.tiles@.take(i + 1)));
            i = i + 1;
        }
        assert(self.tiles@.take(self.tiles@.len() as int) =~= self.tiles@);
        out.append("]}");
        assert(out@ =~= response_json(self.tiles@));
        out
    }
}


/// A name for what `url::Url::parse_with_params` makes of a base URL and query
/// parameters: the URL's text, or the parser's error message.
pub uninterp spec fn url_with_params(base: Seq<char>, params: Seq<(Seq<char>, Seq<char>)>) -> Result<Seq<char>, Seq<char>>;

/// The views of query parameters.
pub open spec fn params_view(p: Seq<(String, String)>) -> Seq<(Seq<char>, Seq<char>)> {
    p.map_values(|x: (String, String)| (x.0@, x.1@))
}

/// `url::Url::parse_with_params` and `Url::as_str`. Believed: the result is
/// `url_with_params` of the base and the parameters.
#[verifier::external_body]
fn parse_with_params(base: &str, params: &Vec<(String, String)>) -> (r: Result<String, String>)
    ensures
        match r {
            Ok(u) => url_with_params(base@, params_view(params@)) == Ok::<Seq<char>, Seq<char>>(u@),
            Err(m) => url_with_params(base@, params_view(params@)) == Err::<Seq<char>, Seq<char>>(m@),
        },
{
    match url::Url::parse_with_params(base, params.iter()) {
        Ok(u) => Ok(u.as_str().to_owned()),
        Err(e) => Err(e.to_string()),
    }
}

/// The query parameters of a partner request.
pub open spec fn partner_params(
    partner: Seq<char>,
    sub1: Seq<char>,
    country: Seq<char>,
    region: Seq<char>,
    form_factor: FormFactor,
    os_family: OsFamily,
    results: u8,
) -> Seq<(Seq<char>, Seq<char>)> {
    seq![
        ("partner"@, partner),
        ("sub1"@, sub1),
        ("country-code"@, country),
        ("region-code"@, region),
        ("form-factor"@, form_factor.name()),
        ("os-family"@, os_family.name()),
        ("sub2"@, "newtab"@),
        ("v"@, "1.0"@),
        ("results"@, decimal(results as nat)),
    ]
}

fn pair(k: &str, v: &str) -> (r: (String, String))
    ensures
        r.0@ == k@,
        r.1@ == v@,
{
    (copy_str(k), copy_str(v))
}

/// The URL of a partner request: the partner endpoint with the partner ID, sub1, the
/// user's country and region, form factor and OS family, and the number of tiles
/// asked for; an `Internal` error where the endpoint is no valid URL.
pub fn partner_request_url(
    pse: &AdmPse,
    country: &str,
    region: &str,
    form_factor: FormFactor,
    os_family: OsFamily,
    results: u8,
) -> (r: HandlerResult<String>)
    ensures
        match url_with_params(
            pse.endpoint@,
            partner_params(pse.partner_id@, pse.sub1@, country@, region@, form_factor, os_family, results),
        ) {
            Ok(u) => r matches Ok(s) && s@ == u,
            Err(m) => r matches Err(e) && e.kind@ == KindView::Internal(m),
        },
{
    let mut params: Vec<(String, String)> = Vec::new();
    params.push(pair("partner", pse.partner_id.as_str()));
    params.push(pair("sub1", pse.sub1.as_str()));
    params.push(pair("country-code", country));
    params.push(pair("region-code", region));
    params.push(pair("form-factor", form_factor.to_string().as_str()));
    params.push(pair("os-family", os_family.to_string().as_str()));
    params.push(pair("sub2", "newtab"));
    params.push(pair("v", "1.0"));
    params.push(pair("results", decimal_string(results as u64).as_str()));
    assert(params_view(params@) =~= partner_params(
        pse.partner_id@,
        pse.sub1@,
        country@,
        region@,
        form_factor,
        os_family,
        results,
    ));
    match parse_with_params(pse.endpoint.as_str(), &params) {
        Ok(u) => Ok(u),
        Err(m) => Err(HandlerError::internal(m.as_str())),
    }
}

/// A partner tile as values.
pub struct AdmTileView {
    pub id: u64,
    pub name: Seq<char>,
    pub advertiser_url: Seq<char>,
    pub click_url: Seq<char>,
    pub image_url: Seq<char>,
    pub impression_url: Seq<char>,
    pub position: Option<u8>,
}

impl View for AdmTile {
    type V = AdmTileView;

    open spec fn view(&self) -> AdmTileView {
        AdmTileView {
            id: self.id,
            name: self.name@,
            advertiser_url: self.advertiser_url@,
            click_url: self.click_url@,
            image_url: self.image_url@,
            impression_url: self.impression_url@,
            position: self.position,
        }
    }
}

/// A text member.
pub open spec fn str_member(m: Seq<(String, JsonValue)>, key: Seq<char>) -> Option<Seq<char>> {
    match obj_get(m, key) {
        Some(JsonValue::Str(s)) => Some(s@),
        _ => None,
    }
}

/// A partner tile object: `id`, the four URLs and `name` are required, `position`
/// (a byte-sized number) is optional.
pub open spec fn adm_tile_json(v: JsonValue) -> Option<AdmTileView> {
    match v {
        JsonValue::Object(m) => {
            let id = match obj_get(m@, "id"@) {
                Some(JsonValue::Number(Some(n), _)) => Some(n),
                _ => None,
            };
            let position = match obj_get(m@, "position"@) {
                None => Some(None),
                Some(JsonValue::Null) => Some(None),
                Some(p) => match crate::adm::decode::byte_of(p) {
                    Some(b) => Some(Some(b)),
                    None => None,
                },
            };
            match (
                id,
                str_member(m@, "name"@),
                str_member(m@, "advertiser_url"@),
                str_member(m@, "click_url"@),
                str_member(m@, "image_url"@),
                str_member(m@, "impression_url"@),
                position,
            ) {
                (Some(i), Some(n), Some(a), Some(c), Some(im), Some(imp), Some(p)) => Some(
                    AdmTileView {
                        id: i,
                        name: n,
                        advertiser_url: a,
                        click_url: c,
                        image_url: im,
                        impression_url: imp,
                        position: p,
                    },
                ),
                _ => None,
            }
        },
        _ => None,
    }
}

/// The tiles of a partner response object (`{"tiles": [...]}`), where each is a tile
/// object.
pub open spec fn adm_response_json(v: JsonValue) -> Option<Seq<AdmTileView>> {
    match v {
        JsonValue::Object(m) => match obj_get(m@, "tiles"@) {
            Some(JsonValue::Array(items)) => if forall|i: int| 0 <= i < items@.len() ==> (#[trigger] adm_tile_json(items@[i])) is Some {
                Some(Seq::new(items@.len(), |i: int| adm_tile_json(items@[i])->Some_0))
            } else {
                None
            },
            _ => None,
        },
        _ => None,
    }
}

fn str_field(m: &Vec<(String, JsonValue)>, key: &str) -> (r: Option<String>)
    ensures
        match r {
            Some(s) => str_member(m@, key@) == Some(s@),
            None => str_member(m@, key@) is None,
        },
{
    match member_index(m, key) {
        Some(i) => match &m[i].1 {
            JsonValue::Str(s) => Some(s.clone()),
            _ => None,
        },
        None => None,
    }
}

impl AdmTile {
    /// A partner tile of a JSON document (see `adm_tile_json`).
    pub fn from_json_value(v: &JsonValue) -> (r: Option<AdmTile>)
        ensures
            match r {
                Some(t) => adm_tile_json(*v) == Some(t@),
                None => adm_tile_json(*v) is None,
            },
    {
        proof {
            reveal_strlit("id");
            reveal_strlit("name");
            reveal_strlit("advertiser_url");
            reveal_strlit("click_url");
            reveal_strlit("image_url");
            reveal_strlit("impression_url");
            reveal_strlit("position");
        }
        let m = match v {
            JsonValue::Object(m) => m,
            _ => {
                return None;
            },
        };
        let id = match member_index(m, "id") {
            Some(i) => match &m[i].1 {
                JsonValue::Number(Some(n), _) => Some(*n),
                _ => None,
            },
            None => None,
        };
        let position = match member_index(m, "position") {
            None => Some(None),
            Some(i) => match &m[i].1 {
                JsonValue::Null => Some(None),
                other => match crate::adm::decode::decode_byte(other) {
                    Some(b) => Some(Some(b)),
                    None => None,
                },
            },
        };
        let name = str_field(m, "name");
        let advertiser_url = str_field(m, "advertiser_url");
        let click_url = str_field(m, "click_url");
        let image_url = str_field(m, "image_url");
        let impression_url = str_field(m, "impression_url");
        match (id, name, advertiser_url, click_url, image_url, impression_url, position) {
            (Some(id), Some(name), Some(advertiser_url), Some(click_url), Some(image_url), Some(impression_url), Some(position)) => Some(
                AdmTile { id, name, advertiser_url, click_url, image_url, impression_url, position },
            ),
            _ => None,
        }
    }
}

impl AdmTileResponse {
    /// The tiles of a partner response document (see `adm_response_json`).
    pub fn from_json_value(v: &JsonValue) -> (r: Option<AdmTileResponse>)
        ensures
            match r {
                Some(t) => adm_response_json(*v) == Some(t.tiles@.map_values(|x: AdmTile| x@)),
                None => adm_response_json(*v) is None,
            },
    {
        proof {
            reveal_strlit("tiles");
        }
        let m = match v {
            JsonValue::Object(m) => m,
            _ => {
                return None;
            },
        };
        let items = match member_index(m, "tiles") {
            Some(i) => match &m[i].1 {
                JsonValue::Array(items) => items,
                _ => {
                    return None;
                },
            },
            None => {
                return None;
            },
        };
        let mut tiles: Vec<AdmTile> = Vec::new();
        let mut i: usize = 0;
        while i < items.len()
            invariant
                i <= items@.len(),
                *v == JsonValue::Object(*m),
                obj_get(m@, "tiles"@) == Some(JsonValue::Array(*items)),
                tiles@.len() == i,
                forall|k: int| 0 <= k < i ==> adm_tile_json(items@[k]) == Some(#[trigger] tiles@[k]@),
            decreases items@.len() - i,
        {
            match AdmTile::from_json_value(&items[i]) {
                Some(t) => {
                    tiles.push(t);
                },
                None => {
                    assert(adm_tile_json(items@[i as int]) is None);
                    return None;
                },
            }
            i = i + 1;
        }
        assert(adm_response_json(*v) == Some(tiles@.map_values(|x: AdmTile| x@))) by {
            assert(forall|k: int| 0 <= k < items@.len() ==> (#[trigger] adm_tile_json(items@[k])) is Some) by {
                assert forall|k: int| 0 <= k < items@.len() implies (#[trigger] adm_tile_json(items@[k])) is Some by {
                    assert(adm_tile_json(items@[k]) == Some(tiles@[k]@));
                }
            }
            assert(Seq::new(items@.len(), |k: int| adm_tile_json(items@[k])->Some_0) =~= tiles@.map_values(
                |x: AdmTile| x@,
            ));
        }
        Some(AdmTileResponse { tiles })
    }

    /// The partner's response text: a `BadAdmResponse` error where it is not JSON of
    /// the response form.
    pub fn from_json(text: &str) -> (r: HandlerResult<AdmTileResponse>)
        ensures
            match serde_json_from_str(text@) {
                Ok(v) => match adm_response_json(v) {
                    Some(ts) => r matches Ok(t) && t.tiles@.map_values(|x: AdmTile| x@) == ts,
                    None => r matches Err(e) && e.kind@ is BadAdmResponse,
                },
                Err(_) => r matches Err(e) && e.kind@ is BadAdmResponse,
            },
    {
        match parse_json(text) {
            Ok(v) => match AdmTileResponse::from_json_value(&v) {
                Some(t) => Ok(t),
                None => Err(
                    HandlerError::new(
                        HandlerErrorKind::BadAdmResponse(copy_str("ADM provided invalid response: unexpected form")),
                    ),
                ),
            },
            Err(m) => Err(
                HandlerError::new(
                    HandlerErrorKind::BadAdmResponse(concat("ADM provided invalid response: ", m.as_str())),
                ),
            ),
        }
    }
}


/// The partner tiles that filtering accepts, in order.
pub open spec fn accepted_tiles(f: AdmFilter, tiles: Seq<AdmTile>, country: Seq<char>, device: DeviceInfo) -> Seq<AdmTile>
    decreases tiles.len(),
{
    if tiles.len() == 0 {
        Seq::empty()
    } else {
        let rest = accepted_tiles(f, tiles.drop_last(), country, device);
        if f.verdict(tiles.last(), country, device).accepted {
            rest.push(tiles.last())
        } else {
            rest
        }
    }
}

/// The tiles accepted among the first ones are the first of those accepted among all.
pub proof fn lemma_accepted_prefix(f: AdmFilter, tiles: Seq<AdmTile>, i: int, country: Seq<char>, device: DeviceInfo)
    requires
        0 <= i <= tiles.len(),
    ensures
        accepted_tiles(f, tiles.take(i), country, device).is_prefix_of(accepted_tiles(f, tiles, country, device)),
    decreases tiles.len() - i,
{
    if i == tiles.len() {
        assert(tiles.take(i) =~= tiles);
    } else {
        lemma_accepted_prefix(f, tiles, i + 1, country, device);
        assert(tiles.take(i + 1).drop_last() =~= tiles.take(i));
        let a = accepted_tiles(f, tiles.take(i), country, device);
        let b = accepted_tiles(f, tiles.take(i + 1), country, device);
        let c = accepted_tiles(f, tiles, country, device);
        assert(a.is_prefix_of(b));
        assert(a =~= c.subrange(0, a.len() as int)) by {
            assert forall|k: int| 0 <= k < a.len() implies a[k] == c[k] by {
                assert(a[k] == b[k]);
                assert(b[k] == c[k]);
            }
        }
    }
}

/// The tags after filtering `tiles` in order, starting from `t`.
pub open spec fn tags_after(f: AdmFilter, tiles: Seq<AdmTile>, country: Seq<char>, device: DeviceInfo, t: TagsView) -> TagsView
    decreases tiles.len(),
{
    if tiles.len() == 0 {
        t
    } else {
        f.verdict_tags(tiles.last(), country, device, tags_after(f, tiles.drop_last(), country, device, t))
    }
}

/// The verdicts of the tiles that filtering rejects, in order, each with the tags as
/// they stood once the tile was filtered (starting from `t`).
pub open spec fn rejections(
    f: AdmFilter,
    tiles: Seq<AdmTile>,
    country: Seq<char>,
    device: DeviceInfo,
    t: TagsView,
) -> Seq<(Verdict, TagsView)>
    decreases tiles.len(),
{
    if tiles.len() == 0 {
        Seq::empty()
    } else {
        let rest = rejections(f, tiles.drop_last(), country, device, t);
        let v = f.verdict(tiles.last(), country, device);
        if v.accepted {
            rest
        } else {
            rest.push((v, tags_after(f, tiles, country, device, t)))
        }
    }
}

/// How many tiles filtering looks at, from the `i`-th on: it stops once `max` tiles
/// are accepted or the tiles run out.
pub open spec fn scanned_from(
    f: AdmFilter,
    tiles: Seq<AdmTile>,
    country: Seq<char>,
    device: DeviceInfo,
    max: nat,
    i: int,
) -> int
    decreases tiles.len() - i,
{
    if i < 0 || i >= tiles.len() || accepted_tiles(f, tiles.take(i), country, device).len() >= max {
        i
    } else {
        scanned_from(f, tiles, country, device, max, i + 1)
    }
}

/// How many of the partner's tiles filtering looks at.
pub open spec fn scanned(f: AdmFilter, tiles: Seq<AdmTile>, country: Seq<char>, device: DeviceInfo, max: nat) -> int {
    scanned_from(f, tiles, country, device, max, 0)
}

/// Where filtering stops at `n`, having found fewer than `max` tiles at each tile
/// before, it scanned `n` tiles.
proof fn lemma_scanned(
    f: AdmFilter,
    tiles: Seq<AdmTile>,
    country: Seq<char>,
    device: DeviceInfo,
    max: nat,
    j: int,
    n: int,
)
    requires
        0 <= j <= n <= tiles.len(),
        n == tiles.len() || accepted_tiles(f, tiles.take(n), country, device).len() >= max,
        forall|k: int| 0 <= k < n ==> #[trigger] accepted_tiles(f, tiles.take(k), country, device).len() < max,
    ensures
        scanned_from(f, tiles, country, device, max, j) == n,
    decreases n - j,
{
    if j < n {
        lemma_scanned(f, tiles, country, device, max, j + 1, n);
    }
}

/// A tile that filtering rejected: the metric to count, the error to report, and the
/// request's tags as they stood when it was rejected.
#[derive(Debug)]
pub struct Rejection {
    pub metric: Option<&'static str>,
    pub report: Option<HandlerError>,
    pub tags: Tags,
}

/// Whether a rejection counts the metric and reports the error of a verdict, with
/// the given tags.
pub open spec fn rejection_of(r: Rejection, v: (Verdict, TagsView)) -> bool {
    &&& match (r.metric, v.0.metric) {
        (Some(m), Some(w)) => m@ == w,
        (None, None) => true,
        _ => false,
    }
    &&& match (r.report, v.0.report) {
        (Some(e), Some(w)) => e.kind@ == w,
        (None, None) => true,
        _ => false,
    }
    &&& r.tags@ == v.1
}

/// The outcome of filtering the partner's tiles.
#[derive(Debug)]
pub struct FilteredTiles {
    /// The tiles to serve.
    pub response: TileResponse,
    /// The tiles that were rejected, in order.
    pub rejected: Vec<Rejection>,
}

impl AdmFilter {
    /// Filter the partner's tiles for a user in `country` on `device`: the client form
    /// of the first `max_tiles` tiles that pass (see `verdict`); tiles after those are
    /// not looked at. Each tile that is looked at and fails is recorded with the
    /// metric and error of its verdict and the tags as they then stood; each check
    /// that fails marks the tags (see `verdict_tags`).
    pub fn filter_tiles(
        &self,
        response: AdmTileResponse,
        country: &str,
        device_info: &DeviceInfo,
        tags: &mut Tags,
        max_tiles: u8,
    ) -> (r: FilteredTiles)
        ensures
            ({
                let acc = accepted_tiles(*self, response.tiles@, country@, *device_info);
                &&& r.response.tiles@.len() == if acc.len() < max_tiles {
                    acc.len()
                } else {
                    max_tiles as nat
                }
                &&& forall|k: int| 0 <= k < r.response.tiles@.len() ==> tile_of(acc[k], #[trigger] r.response.tiles@[k])
            }),
            ({
                let n = scanned(*self, response.tiles@, country@, *device_info, max_tiles as nat);
                let rej = rejections(*self, response.tiles@.take(n), country@, *device_info, old(tags)@);
                &&& 0 <= n <= response.tiles@.len()
                &&& final(tags)@ == tags_after(*self, response.tiles@.take(n), country@, *device_info, old(tags)@)
                &&& r.rejected@.len() == rej.len()
                &&& forall|k: int| 0 <= k < rej.len() ==> rejection_of(#[trigger] r.rejected@[k], rej[k])
            }),
    {
        let ghost all = response.tiles@;
        let ghost max = max_tiles as nat;
        let ghost t0 = tags@;
        let mut tiles = response.tiles;
        let total = tiles.len();
        assert(all.len() == total);
        let mut out: Vec<Tile> = Vec::new();
        let mut rejected: Vec<Rejection> = Vec::new();
        let mut i: usize = 0;
        assert(all.skip(0) =~= all);
        assert(all.take(0) =~= Seq::<AdmTile>::empty());
        while tiles.len() > 0 && out.len() < max_tiles as usize
            invariant
                i + tiles@.len() == all.len(),
                all.len() <= usize::MAX,
                tiles@ == all.skip(i as int),
                out@.len() <= max_tiles,
                max == max_tiles as nat,
                out@.len() == accepted_tiles(*self, all.take(i as int), country@, *device_info).len(),
                forall|k: int|
                    0 <= k < out@.len() ==> tile_of(
                        accepted_tiles(*self, all.take(i as int), country@, *device_info)[k],
                        #[trigger] out@[k],
                    ),
                forall|k: int|
                    0 <= k < i ==> #[trigger] accepted_tiles(*self, all.take(k), country@, *device_info).len() < max,
                tags@ == tags_after(*self, all.take(i as int), country@, *device_info, t0),
                rejected@.len() == rejections(*self, all.take(i as int), country@, *device_info, t0).len(),
                forall|k: int|
                    0 <= k < rejected@.len() ==> rejection_of(
                        #[trigger] rejected@[k],
                        rejections(*self, all.take(i as int), country@, *device_info, t0)[k],
                    ),
            decreases tiles@.len(),
        {
            let tile = tiles.remove(0);
            assert(all.skip(i as int)[0] == all[i as int]);
            assert(tiles@ =~= all.skip(i + 1));
            assert(all.take(i + 1).drop_last() =~= all.take(i as int));
            assert(all.take(i + 1).last() == all[i as int]);
            let outcome = self.filter_and_process(tile, country, device_info, tags);
            match outcome.tile {
                Some(t) => {
                    out.push(t);
                },
                None => {
                    let rejection = Rejection { metric: outcome.metric, report: outcome.report, tags: tags.snapshot() };
                    rejected.push(rejection);
                },
            }
            i = i + 1;
        }
        proof {
            lemma_accepted_prefix(*self, all, i as int, country@, *device_info);
            lemma_scanned(*self, all, country@, *device_info, max, 0, i as int);
            if i == all.len() {
                assert(all.take(i as int) =~= all);
            }
        }
        FilteredTiles { response: TileResponse { tiles: out }, rejected }
    }
}

} // verus!
