//! Where a user is: the location test header, and the order in which the location
//! providers are asked.
use vstd::prelude::*;

use crate::settings::Settings;
use crate::text::{
    parse_unsigned, split_char, split_on, string_from_chars, chars_of, strs_view, trim, trimmed,
    unsigned_decimal, utf8_len, utf8_width,
};

verus! {

/// The location that a test header gives.
#[derive(Debug)]
pub struct TestLocation {
    pub country: Option<String>,
    pub region: Option<String>,
    pub dma: Option<u16>,
}

/// `s` without its first two bytes of UTF-8, where they end at a character boundary.
pub open spec fn after_two_bytes(s: Seq<char>) -> Option<Seq<char>> {
    if s.len() >= 1 && utf8_width(s[0]) == 2 {
        Some(s.skip(1))
    } else if s.len() >= 2 && utf8_width(s[0]) == 1 && utf8_width(s[1]) == 1 {
        Some(s.skip(2))
    } else {
        None
    }
}

/// The region of the second part of a test header: a CLDR subdivision ID such as
/// `USCA` loses its first two bytes (the country), and an empty one is none. `None`
/// where those bytes do not end at a character boundary.
pub open spec fn test_region(part: Seq<char>) -> Option<Option<Seq<char>>> {
    let t = trimmed(part);
    let r = if utf8_len(t) > 2 {
        after_two_bytes(t)
    } else {
        Some(t)
    };
    match r {
        None => None,
        Some(x) => Some(
            if x.len() == 0 {
                None
            } else {
                Some(x)
            },
        ),
    }
}

/// Whether a test header can be read: where it has a region part, the region's first
/// two bytes end at a character boundary.
pub open spec fn test_header_readable(header: Seq<char>) -> bool {
    split_on(header, ',').len() < 2 || test_region(split_on(header, ',')[1]) is Some
}

/// The country of a test header: its first part, trimmed, where not empty.
pub open spec fn test_country(header: Seq<char>) -> Option<Seq<char>> {
    let c = trimmed(split_on(header, ',')[0]);
    if c.len() == 0 {
        None
    } else {
        Some(c)
    }
}

/// The DMA of a test header: its third part read as a number (0 where it is none),
/// where it lies between 500 and 900.
pub open spec fn test_dma(header: Seq<char>) -> Option<u16> {
    let parts = split_on(header, ',');
    if parts.len() < 3 {
        None
    } else {
        let n: nat = match unsigned_decimal(trimmed(parts[2])) {
            Some(n) => if n <= 65535 {
                n
            } else {
                0
            },
            None => 0,
        };
        if 500 <= n && n <= 900 {
            Some(n as u16)
        } else {
            None
        }
    }
}

/// Whether a test header can be read (see `test_header_readable`).
pub fn test_header_is_readable(header: &str) -> (r: bool)
    ensures
        r == test_header_readable(header@),
{
    let parts = split_char(header, ',');
    if parts.len() < 2 {
        return true;
    }
    region_of(parts[1].as_str()).is_some()
}

fn region_of(part: &str) -> (r: Option<Option<String>>)
    ensures
        match r {
            None => test_region(part@) is None,
            Some(None) => test_region(part@) == Some(None::<Seq<char>>),
            Some(Some(s)) => test_region(part@) == Some(Some(s@)),
        },
{
    let t = trim(part);
    let cs = chars_of(t.as_str());
    let rest: String = if crate::text::utf8_len_exceeds(t.as_str(), 2) {
        let w0 = char_width(cs[0]);
        if w0 == 2 {
            string_from_chars(&cs, 1, cs.len())
        } else if w0 == 1 && cs.len() >= 2 && char_width(cs[1]) == 1 {
            string_from_chars(&cs, 2, cs.len())
        } else {
            return None;
        }
    } else {
        t
    };
    proof {
        if utf8_len(t@) > 2 {
            assert(cs@.len() >= 1) by {
                if cs@.len() == 0 {
                    assert(cs@ =~= Seq::<char>::empty());
                }
            }
            assert(rest@ =~= after_two_bytes(t@)->Some_0);
        }
    }
    if rest.as_str().is_empty() {
        Some(None)
    } else {
        Some(Some(rest))
    }
}

fn char_width(c: char) -> (r: u8)
    ensures
        r == utf8_width(c),
{
    if (c as u32) < 0x80 {
        1
    } else if (c as u32) < 0x800 {
        2
    } else if (c as u32) < 0x10000 {
        3
    } else {
        4
    }
}

/// Read a location test header such as `US, USCA, 862`: the country, the region
/// (the subdivision without its country) and the DMA (see `test_country`,
/// `test_region` and `test_dma`).
pub fn parse_test_header(header: &str) -> (r: TestLocation)
    requires
        test_header_readable(header@),
    ensures
        match r.country {
            Some(c) => test_country(header@) == Some(c@),
            None => test_country(header@) is None,
        },
        match r.region {
            Some(g) => split_on(header@, ',').len() >= 2 && test_region(split_on(header@, ',')[1]) == Some(Some(g@)),
            None => split_on(header@, ',').len() < 2 || test_region(split_on(header@, ',')[1]) == Some(None::<Seq<char>>),
        },
        r.dma == test_dma(header@),
{
    let parts = split_char(header, ',');
    proof {
        crate::text::lemma_split_len(header@, ',');
        assert(strs_view(parts@)[0] == parts@[0]@);
    }
    let c = trim(parts[0].as_str());
    let country = if c.as_str().is_empty() {
        None
    } else {
        Some(c)
    };
    let region = if parts.len() >= 2 {
        assert(strs_view(parts@)[1] == parts@[1]@);
        match region_of(parts[1].as_str()) {
            Some(r) => r,
            None => None,
        }
    } else {
        None
    };
    let dma = if parts.len() >= 3 {
        assert(strs_view(parts@)[2] == parts@[2]@);
        let d = trim(parts[2].as_str());
        let n: u64 = match parse_unsigned(d.as_str(), 65535) {
            Some(n) => n,
            None => 0,
        };
        if 500 <= n && n <= 900 {
            Some(n as u16)
        } else {
            None
        }
    } else {
        None
    };
    TestLocation { country, region, dma }
}

/// The location providers, in the order in which they are asked.
#[derive(Debug)]
pub enum LocationProvider {
    /// The test header of this name (lower-cased)
    TestHeader(String),
    /// The MaxMind database at this path
    MaxMind(String),
    /// This country, where nothing else knows
    Fallback(String),
}

/// The location providers that the settings call for: the test header and the
/// MaxMind database where they are set, then the fallback country.
pub fn location_providers(settings: &Settings) -> (r: Vec<LocationProvider>)
    ensures
        r@.len() == (if settings.location_test_header is Some { 1int } else { 0 }) + (if settings.maxminddb_loc is Some {
            1int
        } else {
            0
        }) + 1,
        r@.last() matches LocationProvider::Fallback(c) && c@ == settings.fallback_country@,
        settings.location_test_header matches Some(h) ==> r@[0] matches LocationProvider::TestHeader(n) && n@
            == crate::text::unicode_lowercase(h@),
        settings.maxminddb_loc matches Some(p) ==> r@[r@.len() - 2] matches LocationProvider::MaxMind(q) && q@ == p@,
{
    let mut r: Vec<LocationProvider> = Vec::new();
    if let Some(h) = &settings.location_test_header {
        r.push(LocationProvider::TestHeader(crate::text::to_lowercase(h.as_str())));
    }
    if let Some(p) = &settings.maxminddb_loc {
        r.push(LocationProvider::MaxMind(p.clone()));
    }
    r.push(LocationProvider::Fallback(settings.fallback_country.clone()));
    r
}

} // verus!
