//! Share-of-voice settings: how the tile positions are shared between partners, read
//! from cloud storage, a file or inline JSON, and handed to clients in Base64.
use vstd::prelude::*;
use vstd::string::*;

use crate::codec::{base64_encode, base64_no_pad, Alphabet};
use crate::error::{debug_quoted, debug_string, HandlerError, HandlerErrorKind, HandlerResult, KindView};
use crate::json::{
    fold_result, lemma_fold_error_stays, lemma_fold_step, lemma_fold_whole, member_index, obj_get,
    parse_json, push_quoted, quoted, serde_json_from_str, JsonValue,
};
use crate::settings::Settings;
use crate::text::{concat, copy_str, decimal_string};
use crate::web_url::{url_crate_parse, ParsedUrl};
use vstd::utf8::encode_utf8;

verus! {

/// A partner's share of a position, in percent.
#[derive(Debug)]
pub struct Allocation {
    pub partner: String,
    pub percentage: i64,
}

/// How one tile position is shared.
#[derive(Debug)]
pub struct PositionAllocation {
    pub position: i64,
    pub allocation: Vec<Allocation>,
}

/// The share-of-voice settings.
#[derive(Debug)]
pub struct SOVResponse {
    pub name: String,
    pub allocations: Vec<PositionAllocation>,
}

/// The latest share-of-voice settings and when they were updated (seconds since the epoch).
#[derive(Debug)]
pub struct LastResponse {
    pub updated: i64,
    pub response: SOVResponse,
}

/// The share-of-voice settings and where they come from.
#[derive(Debug)]
pub struct SOVManager {
    /// Seconds between checks of cloud-stored settings
    pub refresh_rate_secs: u64,
    pub last_response: Option<LastResponse>,
    pub source_url: Option<ParsedUrl>,
    /// The settings as JSON in Base64 (standard alphabet, no padding)
    pub encoded_sov: Option<String>,
}

/// An allocation as values.
pub open spec fn allocation_view(a: Allocation) -> (Seq<char>, i64) {
    (a.partner@, a.percentage)
}

/// A position allocation as values.
pub open spec fn position_view(p: PositionAllocation) -> (i64, Seq<(Seq<char>, i64)>) {
    (p.position, p.allocation@.map_values(|a: Allocation| allocation_view(a)))
}

/// The settings as values.
pub open spec fn sov_view(s: SOVResponse) -> (Seq<char>, Seq<(i64, Seq<(Seq<char>, i64)>)>) {
    (s.name@, s.allocations@.map_values(|p: PositionAllocation| position_view(p)))
}

/// A whole number of a JSON document that fits an `i64`.
pub open spec fn i64_of(v: JsonValue) -> Option<i64> {
    match v {
        JsonValue::Number(_, Some(n)) => Some(n),
        _ => None,
    }
}

/// An allocation object: `partner` (a string) and `percentage` (a whole number).
pub open spec fn allocation_json(v: JsonValue) -> Result<(Seq<char>, i64), ()> {
    match v {
        JsonValue::Object(m) => match (obj_get(m@, "partner"@), obj_get(m@, "percentage"@)) {
            (Some(JsonValue::Str(p)), Some(n)) => match i64_of(n) {
                Some(k) => Ok((p@, k)),
                None => Err(()),
            },
            _ => Err(()),
        },
        _ => Err(()),
    }
}

/// A list of allocation objects.
pub open spec fn allocation_step() -> spec_fn(Seq<(Seq<char>, i64)>, JsonValue) -> Result<Seq<(Seq<char>, i64)>, ()> {
    |acc: Seq<(Seq<char>, i64)>, v: JsonValue|
        match allocation_json(v) {
            Ok(a) => Ok(acc.push(a)),
            Err(e) => Err(e),
        }
}

/// A position allocation object: `position` (a whole number) and `allocation` (a list
/// of allocation objects).
pub open spec fn position_json(v: JsonValue) -> Result<(i64, Seq<(Seq<char>, i64)>), ()> {
    match v {
        JsonValue::Object(m) => match (obj_get(m@, "position"@), obj_get(m@, "allocation"@)) {
            (Some(p), Some(JsonValue::Array(items))) => match (
                i64_of(p),
                fold_result(items@, Seq::empty(), allocation_step()),
            ) {
                (Some(k), Ok(a)) => Ok((k, a)),
                _ => Err(()),
            },
            _ => Err(()),
        },
        _ => Err(()),
    }
}

/// A list of position allocation objects.
pub open spec fn position_step() -> spec_fn(Seq<(i64, Seq<(Seq<char>, i64)>)>, JsonValue) -> Result<
    Seq<(i64, Seq<(Seq<char>, i64)>)>,
    (),
> {
    |acc: Seq<(i64, Seq<(Seq<char>, i64)>)>, v: JsonValue|
        match position_json(v) {
            Ok(p) => Ok(acc.push(p)),
            Err(e) => Err(e),
        }
}

/// Share-of-voice settings of a JSON object: `name` (a string) and `allocations` (a
/// list of position allocation objects).
pub open spec fn sov_json(v: JsonValue) -> Result<(Seq<char>, Seq<(i64, Seq<(Seq<char>, i64)>)>), ()> {
    match v {
        JsonValue::Object(m) => match (obj_get(m@, "name"@), obj_get(m@, "allocations"@)) {
            (Some(JsonValue::Str(n)), Some(JsonValue::Array(items))) => match fold_result(
                items@,
                Seq::empty(),
                position_step(),
            ) {
                Ok(ps) => Ok((n@, ps)),
                Err(e) => Err(e),
            },
            _ => Err(()),
        },
        _ => Err(()),
    }
}

fn decode_i64(v: &JsonValue) -> (r: Option<i64>)
    ensures
        r == i64_of(*v),
{
    match v {
        JsonValue::Number(_, Some(n)) => Some(*n),
        _ => None,
    }
}

fn decode_allocation(v: &JsonValue) -> (r: Option<Allocation>)
    ensures
        match r {
            Some(a) => allocation_json(*v) == Ok::<(Seq<char>, i64), ()>(allocation_view(a)),
            None => allocation_json(*v) is Err,
        },
{
    proof {
        reveal_strlit("partner");
        reveal_strlit("percentage");
    }
    let m = match v {
        JsonValue::Object(m) => m,
        _ => {
            return None;
        },
    };
    let partner = match member_index(m, "partner") {
        Some(i) => match &m[i].1 {
            JsonValue::Str(s) => s.clone(),
            _ => {
                return None;
            },
        },
        None => {
            return None;
        },
    };
    let percentage = match member_index(m, "percentage") {
        Some(i) => match decode_i64(&m[i].1) {
            Some(k) => k,
            None => {
                return None;
            },
        },
        None => {
            return None;
        },
    };
    Some(Allocation { partner, percentage })
}

fn decode_position(v: &JsonValue) -> (r: Option<PositionAllocation>)
    ensures
        match r {
            Some(p) => position_json(*v) == Ok::<(i64, Seq<(Seq<char>, i64)>), ()>(position_view(p)),
            None => position_json(*v) is Err,
        },
{
    proof {
        reveal_strlit("position");
        reveal_strlit("allocation");
    }
    let m = match v {
        JsonValue::Object(m) => m,
        _ => {
            return None;
        },
    };
    let pi = match member_index(m, "position") {
        Some(i) => i,
        None => {
            return None;
        },
    };
    let items = match member_index(m, "allocation") {
        Some(i) => match &m[i].1 {
            JsonValue::Array(items) => items,
            _ => {
                return None;
            },
        },
        None => {
            return None;
        },
    };
    let position = match decode_i64(&m[pi].1) {
        Some(k) => k,
        None => {
            return None;
        },
    };
    let ghost step = allocation_step();
    let mut out: Vec<Allocation> = Vec::new();
    let mut i: usize = 0;
    assert(out@.map_values(|a: Allocation| allocation_view(a)) =~= Seq::<(Seq<char>, i64)>::empty());
    assert(items@.take(0) =~= Seq::<JsonValue>::empty());
    assert(position_json(*v) == match fold_result(items@, Seq::empty(), step) {
        Ok(a) => Ok((position, a)),
        Err(_) => Err::<(i64, Seq<(Seq<char>, i64)>), ()>(()),
    });
    while i < items.len()
        invariant
            i <= items@.len(),
            step == allocation_step(),
            position_json(*v) == match fold_result(items@, Seq::empty(), step) {
                Ok(a) => Ok((position, a)),
                Err(_) => Err::<(i64, Seq<(Seq<char>, i64)>), ()>(()),
            },
            fold_result(items@.take(i as int), Seq::empty(), step) == Ok::<Seq<(Seq<char>, i64)>, ()>(
                out@.map_values(|a: Allocation| allocation_view(a)),
            ),
        decreases items@.len() - i,
    {
        proof {
            lemma_fold_step(items@, i as int, Seq::empty(), step);
        }
        match decode_allocation(&items[i]) {
            Some(a) => {
                let ghost before = out@;
                out.push(a);
                assert(out@.map_values(|a: Allocation| allocation_view(a)) =~= before.map_values(
                    |a: Allocation| allocation_view(a),
                ).push(allocation_view(a)));
            },
            None => {
                proof {
                    lemma_fold_error_stays(items@, i + 1, Seq::empty(), step);
                }
                return None;
            },
        }
        i = i + 1;
    }
    proof {
        lemma_fold_whole(items@, Seq::empty(), step);
    }
    Some(PositionAllocation { position, allocation: out })
}

impl SOVResponse {
    /// The share-of-voice settings of a JSON document (see `sov_json`).
    pub fn from_json_value(v: &JsonValue) -> (r: Option<SOVResponse>)
        ensures
            match r {
                Some(s) => sov_json(*v) == Ok::<(Seq<char>, Seq<(i64, Seq<(Seq<char>, i64)>)>), ()>(sov_view(s)),
                None => sov_json(*v) is Err,
            },
    {
        proof {
            reveal_strlit("name");
            reveal_strlit("allocations");
        }
        let m = match v {
            JsonValue::Object(m) => m,
            _ => {
                return None;
            },
        };
        let name = match member_index(m, "name") {
            Some(i) => match &m[i].1 {
                JsonValue::Str(s) => s.clone(),
                _ => {
                    return None;
                },
            },
            None => {
                return None;
            },
        };
        let items = match member_index(m, "allocations") {
            Some(i) => match &m[i].1 {
                JsonValue::Array(items) => items,
                _ => {
                    return None;
                },
            },
            None => {
                return None;
            },
        };
        let ghost step = position_step();
        let mut out: Vec<PositionAllocation> = Vec::new();
        let mut i: usize = 0;
        assert(out@.map_values(|p: PositionAllocation| position_view(p)) =~= Seq::<
            (i64, Seq<(Seq<char>, i64)>),
        >::empty());
        assert(items@.take(0) =~= Seq::<JsonValue>::empty());
        assert(sov_json(*v) == match fold_result(items@, Seq::empty(), step) {
            Ok(ps) => Ok((name@, ps)),
            Err(e) => Err::<(Seq<char>, Seq<(i64, Seq<(Seq<char>, i64)>)>), ()>(e),
        });
        while i < items.len()
            invariant
                i <= items@.len(),
                step == position_step(),
                sov_json(*v) == match fold_result(items@, Seq::empty(), step) {
                    Ok(ps) => Ok((name@, ps)),
                    Err(e) => Err::<(Seq<char>, Seq<(i64, Seq<(Seq<char>, i64)>)>), ()>(e),
                },
                fold_result(items@.take(i as int), Seq::empty(), step) == Ok::<Seq<(i64, Seq<(Seq<char>, i64)>)>, ()>(
                    out@.map_values(|p: PositionAllocation| position_view(p)),
                ),
            decreases items@.len() - i,
        {
            proof {
                lemma_fold_step(items@, i as int, Seq::empty(), step);
            }
            match decode_position(&items[i]) {
                Some(p) => {
                    let ghost before = out@;
                    let ghost pv = position_view(p);
                    out.push(p);
                    assert(out@.map_values(|p: PositionAllocation| position_view(p)) =~= before.map_values(
                        |p: PositionAllocation| position_view(p),
                    ).push(pv));
                },
                None => {
                    proof {
                        lemma_fold_error_stays(items@, i + 1, Seq::empty(), step);
                    }
                    return None;
                },
            }
            i = i + 1;
        }
        proof {
            lemma_fold_whole(items@, Seq::empty(), step);
        }
        Some(SOVResponse { name, allocations: out })
    }
}

/// The decimal text of a signed number.
pub open spec fn signed_decimal(n: i64) -> Seq<char> {
    if n < 0 {
        "-"@ + crate::text::decimal((-(n as int)) as nat)
    } else {
        crate::text::decimal(n as nat)
    }
}

fn signed_decimal_string(n: i64) -> (r: String)
    ensures
        r@ == signed_decimal(n),
{
    if n < 0 {
        let magnitude: u64 = if n == i64::MIN {
            9223372036854775808u64
        } else {
            (-n) as u64
        };
        let mut out = String::from_str("-");
        out.append(decimal_string(magnitude).as_str());
        out
    } else {
        decimal_string(n as u64)
    }
}

/// The JSON text of an allocation.
pub open spec fn allocation_text(a: (Seq<char>, i64)) -> Seq<char> {
    "{\"partner\":"@ + quoted(a.0) + ",\"percentage\":"@ + signed_decimal(a.1) + "}"@
}

/// JSON texts separated by commas.
pub open spec fn comma_list<T>(items: Seq<T>, text: spec_fn(T) -> Seq<char>) -> Seq<char>
    decreases items.len(),
{
    if items.len() == 0 {
        Seq::<char>::empty()
    } else if items.len() == 1 {
        text(items[0])
    } else {
        comma_list(items.drop_last(), text) + ","@ + text(items.last())
    }
}

/// The JSON text of a position allocation.
pub open spec fn position_text(p: (i64, Seq<(Seq<char>, i64)>)) -> Seq<char> {
    "{\"position\":"@ + signed_decimal(p.0) + ",\"allocation\":["@ + comma_list(
        p.1,
        |a: (Seq<char>, i64)| allocation_text(a),
    ) + "]}"@
}

/// The JSON text of the settings: `name` then `allocations`, no white space.
pub open spec fn sov_text(s: (Seq<char>, Seq<(i64, Seq<(Seq<char>, i64)>)>)) -> Seq<char> {
    "{\"name\":"@ + quoted(s.0) + ",\"allocations\":["@ + comma_list(
        s.1,
        |p: (i64, Seq<(Seq<char>, i64)>)| position_text(p),
    ) + "]}"@
}

fn push_allocation(out: &mut String, a: &Allocation)
    ensures
        final(out)@ == old(out)@ + allocation_text(allocation_view(*a)),
{
    let ghost start = out@;
    out.append("{\"partner\":");
    push_quoted(out, a.partner.as_str());
    out.append(",\"percentage\":");
    out.append(signed_decimal_string(a.percentage).as_str());
    out.append("}");
    assert(out@ =~= start + allocation_text(allocation_view(*a)));
}

fn push_position(out: &mut String, p: &PositionAllocation)
    ensures
        final(out)@ == old(out)@ + position_text(position_view(*p)),
{
    let ghost start = out@;
    let ghost views = p.allocation@.map_values(|a: Allocation| allocation_view(a));
    let ghost text = |a: (Seq<char>, i64)| allocation_text(a);
    out.append("{\"position\":");
    out.append(signed_decimal_string(p.position).as_str());
    out.append(",\"allocation\":[");
    let ghost mid = out@;
    let mut i: usize = 0;
    assert(views.take(0) =~= Seq::<(Seq<char>, i64)>::empty());
    while i < p.allocation.len()
        invariant
            i <= p.allocation@.len(),
            views == p.allocation@.map_values(|a: Allocation| allocation_view(a)),
            text == (|a: (Seq<char>, i64)| allocation_text(a)),
            out@ == mid + comma_list(views.take(i as int), text),
        decreases p.allocation@.len() - i,
    {
        assert(views.take(i + 1).drop_last() =~= views.take(i as int));
        assert(views.take(i + 1).last() == allocation_view(p.allocation@[i as int]));
        if i > 0 {
            out.append(",");
        } else {
            assert(views.take(1)[0] == views[0]);
        }
        push_allocation(out, &p.allocation[i]);
        assert(out@ =~= mid + comma_list(views.take(i + 1), text));
        i = i + 1;
    }
    assert(views.take(views.len() as int) =~= views);
    out.append("]}");
    assert(out@ =~= start + position_text(position_view(*p)));
}

impl SOVResponse {
    /// The JSON text of the settings (see `sov_text`).
    pub fn to_json(&self) -> (r: String)
        ensures
            r@ == sov_text(sov_view(*self)),
    {
        let ghost views = self.allocations@.map_values(|p: PositionAllocation| position_view(p));
        let ghost text = |p: (i64, Seq<(Seq<char>, i64)>)| position_text(p);
        let mut out = String::from_str("{\"name\":");
        push_quoted(&mut out, self.name.as_str());
        out.append(",\"allocations\":[");
        let ghost mid = out@;
        let mut i: usize = 0;
        assert(views.take(0) =~= Seq::<(i64, Seq<(Seq<char>, i64)>)>::empty());
        while i < self.allocations.len()
            invariant
                i <= self.allocations@.len(),
                views == self.allocations@.map_values(|p: PositionAllocation| position_view(p)),
                text == (|p: (i64, Seq<(Seq<char>, i64)>)| position_text(p)),
                out@ == mid + comma_list(views.take(i as int), text),
            decreases self.allocations@.len() - i,
        {
            assert(views.take(i + 1).drop_last() =~= views.take(i as int));
            assert(views.take(i + 1).last() == position_view(self.allocations@[i as int]));
            if i > 0 {
                out.append(",");
            } else {
                assert(views.take(1)[0] == views[0]);
            }
            push_position(&mut out, &self.allocations[i]);
            assert(out@ =~= mid + comma_list(views.take(i + 1), text));
            i = i + 1;
        }
        assert(views.take(views.len() as int) =~= views);
        out.append("]}");
        assert(out@ =~= sov_text(sov_view(*self)));
        out
    }

    /// The settings as JSON in Base64 (standard alphabet, no padding), as handed to
    /// clients.
    pub fn encoded(&self) -> (r: String)
        ensures
            r@ == base64_no_pad(encode_utf8(sov_text(sov_view(*self))), Alphabet::Standard),
    {
        let json = self.to_json();
        base64_encode(json.as_str().as_bytes(), Alphabet::Standard)
    }
}


/// The share-of-voice settings of a text, where it is JSON of their form.
pub open spec fn sov_from_text(text: Seq<char>) -> Option<(Seq<char>, Seq<(i64, Seq<(Seq<char>, i64)>)>)> {
    match serde_json_from_str(text) {
        Ok(v) => match sov_json(v) {
            Ok(s) => Some(s),
            Err(_) => None,
        },
        Err(_) => None,
    }
}

/// Read share-of-voice settings from a JSON text.
pub fn sov_of_text(text: &str) -> (r: Option<SOVResponse>)
    ensures
        match r {
            Some(s) => sov_from_text(text@) == Some(sov_view(s)),
            None => sov_from_text(text@) is None,
        },
{
    match parse_json(text) {
        Ok(v) => SOVResponse::from_json_value(&v),
        Err(_) => None,
    }
}

impl LastResponse {
    /// The settings downloaded from cloud storage, updated at `updated`: a `General`
    /// error where the text is not JSON of their form.
    pub fn from_download(text: &str, updated: i64) -> (r: HandlerResult<LastResponse>)
        ensures
            match r {
                Ok(l) => sov_from_text(text@) == Some(sov_view(l.response)) && l.updated == updated,
                Err(e) => sov_from_text(text@) is None && e.kind@ is General,
            },
    {
        match parse_json(text) {
            Ok(v) => match SOVResponse::from_json_value(&v) {
                Some(response) => Ok(LastResponse { updated, response }),
                None => Err(
                    HandlerError::new(HandlerErrorKind::General(copy_str("Could not read SOV Settings: invalid form"))),
                ),
            },
            Err(m) => Err(HandlerError::new(HandlerErrorKind::General(concat("Could not read SOV Settings: ", m.as_str())))),
        }
    }
}

impl SOVManager {
    /// The share-of-voice manager that the settings describe, at `now`. A `gs://`
    /// source is read from cloud storage later; any other is a file (whose contents
    /// `file_contents` holds where the path exists: the text, or none where it could
    /// not be read) or inline JSON.
    pub fn from_settings(settings: &Settings, file_contents: Option<Option<String>>, now: i64) -> (r: HandlerResult<
        SOVManager,
    >)
        ensures
            "gs://"@.is_prefix_of(settings.sov_source@) ==> match url_crate_parse(settings.sov_source@) {
                Ok(u) => r matches Ok(m) && m.source_url == Some(u) && m.encoded_sov is None && m.last_response is None
                    && m.refresh_rate_secs == settings.sov_refresh_rate_secs,
                Err(_) => r matches Err(e) && e.kind@ == KindView::Internal(
                    "Unable to parse SOV URL '"@ + settings.sov_source@ + "'"@,
                ),
            },
            !"gs://"@.is_prefix_of(settings.sov_source@) ==> {
                let parsed = match file_contents {
                    Some(Some(t)) => sov_from_text(t@),
                    Some(None) => None,
                    None => sov_from_text(settings.sov_source@),
                };
                match parsed {
                    Some(s) => {
                        &&& r is Ok
                        &&& r->Ok_0.source_url is None
                        &&& r->Ok_0.refresh_rate_secs == settings.sov_refresh_rate_secs
                        &&& r->Ok_0.last_response is Some
                        &&& sov_view(r->Ok_0.last_response->Some_0.response) == s
                        &&& r->Ok_0.last_response->Some_0.updated == now
                        &&& r->Ok_0.encoded_sov is Some
                        &&& r->Ok_0.encoded_sov->Some_0@ == base64_no_pad(encode_utf8(sov_text(s)), Alphabet::Standard)
                    },
                    None => r matches Err(e) && e.kind@ == KindView::Internal(
                        if file_contents is Some {
                            "Unable to parse SOV settings from file '"@ + settings.sov_source@ + "'"@
                        } else {
                            "Could not parse SOV settings inline: "@ + debug_quoted(settings.sov_source@)
                        },
                    ),
                }
            },
    {
        proof {
            reveal_strlit("gs://");
            reveal_strlit("'");
        }
        if crate::text::starts_with(settings.sov_source.as_str(), "gs://") {
            return match ParsedUrl::parse(settings.sov_source.as_str()) {
                Ok(u) => Ok(SOVManager {
                    refresh_rate_secs: settings.sov_refresh_rate_secs,
                    last_response: None,
                    source_url: Some(u),
                    encoded_sov: None,
                }),
                Err(_) => {
                    let a = concat("Unable to parse SOV URL '", settings.sov_source.as_str());
                    let msg = concat(a.as_str(), "'");
                    Err(HandlerError::internal(msg.as_str()))
                },
            };
        }
        let sov = match &file_contents {
            Some(contents) => {
                let parsed = match contents {
                    Some(t) => sov_of_text(t.as_str()),
                    None => None,
                };
                match parsed {
                    Some(s) => s,
                    None => {
                        let a = concat("Unable to parse SOV settings from file '", settings.sov_source.as_str());
                        let msg = concat(a.as_str(), "'");
                        return Err(HandlerError::internal(msg.as_str()));
                    },
                }
            },
            None => match sov_of_text(settings.sov_source.as_str()) {
                Some(s) => s,
                None => {
                    let q = debug_string(settings.sov_source.as_str());
                    let msg = concat("Could not parse SOV settings inline: ", q.as_str());
                    return Err(HandlerError::internal(msg.as_str()));
                },
            },
        };
        let encoded = sov.encoded();
        Ok(SOVManager {
            refresh_rate_secs: settings.sov_refresh_rate_secs,
            last_response: Some(LastResponse { updated: now, response: sov }),
            source_url: None,
            encoded_sov: Some(encoded),
        })
    }

    /// Take newly fetched settings: they become the latest, and their Base64 JSON
    /// is what clients get.
    pub fn update(&mut self, last_response: LastResponse)
        ensures
            final(self).encoded_sov matches Some(enc) && enc@ == base64_no_pad(
                encode_utf8(sov_text(sov_view(last_response.response))),
                Alphabet::Standard,
            ),
            final(self).last_response == Some(last_response),
            final(self).source_url == old(self).source_url,
            final(self).refresh_rate_secs == old(self).refresh_rate_secs,
    {
        self.encoded_sov = Some(last_response.response.encoded());
        self.last_response = Some(last_response);
    }

    /// The time of the settings last read, where any were.
    pub fn last_updated(&self) -> (r: Option<i64>)
        ensures
            r == match self.last_response {
                Some(l) => Some(l.updated),
                None => None,
            },
    {
        match &self.last_response {
            Some(l) => Some(l.updated),
            None => None,
        }
    }
}

} // verus!
