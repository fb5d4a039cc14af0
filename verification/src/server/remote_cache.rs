//! Entries of the shared image cache, and their JSON form.
use vstd::prelude::*;
use vstd::string::*;

use crate::json::{member_index, obj_get, parse_json, push_quoted, quoted, serde_json_from_str, JsonValue};

verus! {

/// Whether a shared cache entry is being worked on or ready.
#[derive(Clone, Copy, Debug, PartialEq, Eq, Structural)]
pub enum CacheState {
    Pending,
    Available,
}

/// A shared cache entry.
#[derive(Debug)]
pub struct CacheValue {
    pub state: CacheState,
    pub data: Option<String>,
}

/// The name of a state.
pub open spec fn state_name(s: CacheState) -> Seq<char> {
    match s {
        CacheState::Pending => "Pending"@,
        CacheState::Available => "Available"@,
    }
}

/// The JSON text of an entry: its members in key order, `data` `null` where there is none.
pub open spec fn cache_value_json(v: CacheValue) -> Seq<char> {
    "{\"data\":"@ + match v.data {
        Some(d) => quoted(d@),
        None => "null"@,
    } + ",\"state\":"@ + quoted(state_name(v.state)) + "}"@
}

/// An entry of a JSON object: `state` (`"Pending"` or `"Available"`) and optionally
/// `data` (a string, or `null`).
pub open spec fn cache_value_of(v: JsonValue) -> Option<(CacheState, Option<Seq<char>>)> {
    match v {
        JsonValue::Object(m) => {
            let state = match obj_get(m@, "state"@) {
                Some(JsonValue::Str(s)) => if s@ == "Pending"@ {
                    Some(CacheState::Pending)
                } else if s@ == "Available"@ {
                    Some(CacheState::Available)
                } else {
                    None
                },
                _ => None,
            };
            let data = match obj_get(m@, "data"@) {
                None => Some(None),
                Some(JsonValue::Null) => Some(None),
                Some(JsonValue::Str(d)) => Some(Some(d@)),
                Some(_) => None,
            };
            match (state, data) {
                (Some(s), Some(d)) => Some((s, d)),
                _ => None,
            }
        },
        _ => None,
    }
}

impl CacheValue {
    /// The JSON text of the entry (see `cache_value_json`).
    pub fn to_json(&self) -> (r: String)
        ensures
            r@ == cache_value_json(*self),
    {
        let mut out = String::from_str("{\"data\":");
        match &self.data {
            Some(d) => push_quoted(&mut out, d.as_str()),
            None => out.append("null"),
        }
        out.append(",\"state\":");
        match self.state {
            CacheState::Pending => push_quoted(&mut out, "Pending"),
            CacheState::Available => push_quoted(&mut out, "Available"),
        }
        out.append("}");
        assert(out@ =~= cache_value_json(*self));
        out
    }

    /// The entry of a JSON text, where it is JSON of the entry form (see `cache_value_of`).
    pub fn from_json(text: &str) -> (r: Option<CacheValue>)
        ensures
            match serde_json_from_str(text@) {
                Ok(v) => match cache_value_of(v) {
                    Some((s, d)) => r matches Some(c) && c.state == s && match c.data {
                        Some(x) => d == Some(x@),
                        None => d is None,
                    },
                    None => r is None,
                },
                Err(_) => r is None,
            },
    {
        proof {
            reveal_strlit("state");
            reveal_strlit("data");
            reveal_strlit("Pending");
            reveal_strlit("Available");
            assert("Pending"@[0] != "Available"@[0]);
        }
        let v = match parse_json(text) {
            Ok(v) => v,
            Err(_) => {
                return None;
            },
        };
        let m = match &v {
            JsonValue::Object(m) => m,
            _ => {
                return None;
            },
        };
        let state = match member_index(m, "state") {
            Some(i) => match &m[i].1 {
                JsonValue::Str(s) => if crate::text::str_eq(s.as_str(), "Pending") {
                    CacheState::Pending
                } else if crate::text::str_eq(s.as_str(), "Available") {
                    CacheState::Available
                } else {
                    return None;
                },
                _ => {
                    return None;
                },
            },
            None => {
                return None;
            },
        };
        let data = match member_index(m, "data") {
            None => None,
            Some(i) => match &m[i].1 {
                JsonValue::Null => None,
                JsonValue::Str(d) => Some(d.clone()),
                _ => {
                    return None;
                },
            },
        };
        Some(CacheValue { state, data })
    }
}

} // verus!
