//! Simple User-Agent parser/stripper
use vstd::prelude::*;

use crate::error::{HandlerError, HandlerErrorKind, HandlerResult};
use crate::text::{
    chars_of, copy_str, lemma_split_len, parse_unsigned, split_char, split_on, starts_with, str_eq,
    strs_view, to_lowercase, unicode_lowercase, unsigned_decimal, all_ascii, ascii_lower_char,
};

verus! {

/// Form factor of the device, in the form the partner requires.
#[derive(Clone, Copy, Debug, PartialEq, Eq, Structural, Hash)]
pub enum FormFactor {
    Desktop,
    Phone,
    Tablet,
    Other,
}

/// Simplified operating system family
#[derive(Clone, Copy, Debug, PartialEq, Eq, Structural, Hash)]
pub enum OsFamily {
    Windows,
    MacOs,
    Linux,
    IOs,
    Android,
    ChromeOs,
    BlackBerry,
    Other,
}

impl FormFactor {
    /// The lower-cased variant name (what `Display` shows).
    pub open spec fn name(self) -> Seq<char> {
        match self {
            FormFactor::Desktop => "desktop"@,
            FormFactor::Phone => "phone"@,
            FormFactor::Tablet => "tablet"@,
            FormFactor::Other => "other"@,
        }
    }

    /// The lower-cased variant name.
    pub fn to_string(&self) -> (r: String)
        ensures
            r@ == self.name(),
    {
        match self {
            FormFactor::Desktop => copy_str("desktop"),
            FormFactor::Phone => copy_str("phone"),
            FormFactor::Tablet => copy_str("tablet"),
            FormFactor::Other => copy_str("other"),
        }
    }
}

impl OsFamily {
    /// The lower-cased variant name (what `Display` shows).
    pub open spec fn name(self) -> Seq<char> {
        match self {
            OsFamily::Windows => "windows"@,
            OsFamily::MacOs => "macos"@,
            OsFamily::Linux => "linux"@,
            OsFamily::IOs => "ios"@,
            OsFamily::Android => "android"@,
            OsFamily::ChromeOs => "chromeos"@,
            OsFamily::BlackBerry => "blackberry"@,
            OsFamily::Other => "other"@,
        }
    }

    /// The lower-cased variant name.
    pub fn to_string(&self) -> (r: String)
        ensures
            r@ == self.name(),
    {
        match self {
            OsFamily::Windows => copy_str("windows"),
            OsFamily::MacOs => copy_str("macos"),
            OsFamily::Linux => copy_str("linux"),
            OsFamily::IOs => copy_str("ios"),
            OsFamily::Android => copy_str("android"),
            OsFamily::ChromeOs => copy_str("chromeos"),
            OsFamily::BlackBerry => copy_str("blackberry"),
            OsFamily::Other => copy_str("other"),
        }
    }
}

/// What the service knows of the requesting device.
#[derive(Debug, PartialEq, Eq, Structural)]
pub struct DeviceInfo {
    pub form_factor: FormFactor,
    pub os_family: OsFamily,
    /// The major Firefox version.
    pub ff_version: u32,
}

impl DeviceInfo {
    /// Whether the device is a desktop one before version 91.
    pub open spec fn legacy_only_spec(&self) -> bool {
        self.form_factor == FormFactor::Desktop && self.ff_version < 91
    }

    /// Whether the device is a phone or tablet, or runs Android or iOS.
    pub open spec fn is_mobile_spec(&self) -> bool {
        self.form_factor == FormFactor::Phone || self.form_factor == FormFactor::Tablet || self.os_family
            == OsFamily::Android || self.os_family == OsFamily::IOs
    }

    /// "Legacy" means that it can only display tiles that are available from
    /// remote settings: desktop devices before version 91.
    pub fn legacy_only(&self) -> (r: bool)
        ensures
            r == self.legacy_only_spec(),
    {
        self.form_factor == FormFactor::Desktop && self.ff_version < 91
    }

    /// Whether the device is a mobile one, by form factor or by operating system.
    pub fn is_mobile(&self) -> (r: bool)
        ensures
            r == self.is_mobile_spec(),
    {
        matches!(self.form_factor, FormFactor::Phone | FormFactor::Tablet) || matches!(
            self.os_family,
            OsFamily::Android | OsFamily::IOs
        )
    }
}

/// The fields of a `woothee` parse: browser name, category, operating system and version.
pub struct UaFields {
    pub name: String,
    pub category: String,
    pub os: String,
    pub version: String,
}

/// A name for what `woothee::parser::Parser::parse` yields on `agent`: its
/// name, category, os and version fields (`None` where the parser yields nothing).
pub uninterp spec fn woothee_parse(agent: Seq<char>) -> Option<(Seq<char>, Seq<char>, Seq<char>, Seq<char>)>;

/// `woothee::parser::Parser::new().parse(agent)`, reduced to the name, category,
/// os and version fields. Believed: the result is `woothee_parse` of the agent.
#[verifier::external_body]
fn woothee_fields(agent: &str) -> (r: Option<UaFields>)
    ensures
        match woothee_parse(agent@) {
            Some(f) => r is Some && r->0.name@ == f.0 && r->0.category@ == f.1 && r->0.os@ == f.2
                && r->0.version@ == f.3,
            None => r is None,
        },
{
    woothee::parser::Parser::new().parse(agent).map(|w| UaFields {
        name: w.name.to_owned(),
        category: w.category.to_owned(),
        os: w.os.to_owned(),
        version: w.version.to_owned(),
    })
}

/// Whether `pat` occurs in `s` as a run of consecutive characters.
pub open spec fn has_substring(s: Seq<char>, pat: Seq<char>) -> bool {
    exists|i: int| 0 <= i && i + pat.len() <= s.len() && #[trigger] s.subrange(i, i + pat.len()) == pat
}

/// Whether `pat` occurs in `s`.
pub fn contains_str(s: &str, pat: &str) -> (r: bool)
    ensures
        r == has_substring(s@, pat@),
{
    let cs = chars_of(s);
    let cp = chars_of(pat);
    if cp.len() > cs.len() {
        return false;
    }
    let mut i: usize = 0;
    while i <= cs.len() - cp.len()
        invariant
            cs@ == s@,
            cp@ == pat@,
            cp.len() <= cs.len(),
            i <= cs.len() - cp.len() + 1,
            forall|k: int| 0 <= k < i ==> #[trigger] cs@.subrange(k, k + cp@.len()) != cp@,
        decreases cs.len() - cp.len() + 1 - i,
    {
        let mut j: usize = 0;
        let mut same = true;
        while j < cp.len()
            invariant
                cp.len() <= cs.len(),
                i <= cs.len() - cp.len(),
                j <= cp.len(),
                same == (forall|t: int| 0 <= t < j ==> cs@[i + t] == cp@[t]),
            decreases cp.len() - j,
        {
            if cs[i + j] != cp[j] {
                same = false;
            }
            j = j + 1;
        }
        if same {
            assert(cs@.subrange(i as int, i + cp@.len()) =~= cp@);
            return true;
        }
        assert(cs@.subrange(i as int, i + cp@.len()) != cp@) by {
            let t = choose|t: int| 0 <= t < cp.len() && cs@[i + t] != cp@[t];
            assert(cs@.subrange(i as int, i + cp@.len())[t] == cs@[i + t]);
        }
        i = i + 1;
    }
    proof {
        if has_substring(s@, pat@) {
            let k = choose|k: int| 0 <= k && k + pat@.len() <= s@.len() && #[trigger] s@.subrange(k, k + pat@.len()) == pat@;
            assert(k < i);
        }
    }
    false
}

/// The simplified operating system family of a lower-cased woothee `os` field.
pub open spec fn os_family_of(os: Seq<char>) -> OsFamily {
    if "windows"@.is_prefix_of(os) {
        OsFamily::Windows
    } else if os == "mac osx"@ {
        OsFamily::MacOs
    } else if os == "linux"@ {
        OsFamily::Linux
    } else if os == "iphone"@ || os == "ipad"@ {
        OsFamily::IOs
    } else if os == "android"@ {
        OsFamily::Android
    } else if os == "chromeos"@ {
        OsFamily::ChromeOs
    } else if os == "blackberry"@ {
        OsFamily::BlackBerry
    } else {
        OsFamily::Other
    }
}

/// Distinct operating system families have distinct names, and the name of each
/// family that the parser reports under its own name classifies back to that family
/// (so Android devices are reported as `android`, never as another family).
pub proof fn lemma_os_family_names(a: OsFamily, b: OsFamily)
    ensures
        a.name() == b.name() ==> a == b,
        a != OsFamily::MacOs && a != OsFamily::IOs ==> os_family_of(a.name()) == a,
{
    reveal_strlit("windows");
    reveal_strlit("macos");
    reveal_strlit("linux");
    reveal_strlit("ios");
    reveal_strlit("android");
    reveal_strlit("chromeos");
    reveal_strlit("blackberry");
    reveal_strlit("other");
    reveal_strlit("mac osx");
    reveal_strlit("iphone");
    reveal_strlit("ipad");
    // The names begin with distinct letters.
    assert(a.name()[0] == b.name()[0] ==> a == b);
    assert("windows"@.is_prefix_of("windows"@));
    lemma_first_char_not_prefix("windows"@, "linux"@);
    lemma_first_char_not_prefix("windows"@, "android"@);
    lemma_first_char_not_prefix("windows"@, "chromeos"@);
    lemma_first_char_not_prefix("windows"@, "blackberry"@);
    lemma_first_char_not_prefix("windows"@, "other"@);
}

/// A text is no prefix of one that begins with another character.
proof fn lemma_first_char_not_prefix(a: Seq<char>, b: Seq<char>)
    requires
        a.len() > 0,
        b.len() > 0,
        a[0] != b[0],
    ensures
        !a.is_prefix_of(b),
{
    if a.is_prefix_of(b) {
        assert(b.subrange(0, a.len() as int)[0] == b[0]);
    }
}

/// Distinct form factors have distinct names.
pub proof fn lemma_form_factor_names(a: FormFactor, b: FormFactor)
    ensures
        a.name() == b.name() ==> a == b,
{
    reveal_strlit("desktop");
    reveal_strlit("phone");
    reveal_strlit("tablet");
    reveal_strlit("other");
    assert(a.name()[0] == b.name()[0] ==> a == b);
}

/// The form factor of a woothee `category` field, given the lower-cased `os` field.
pub open spec fn form_factor_of(category: Seq<char>, os: Seq<char>) -> FormFactor {
    if category == "pc"@ {
        FormFactor::Desktop
    } else if category == "smartphone"@ && os == "ipad"@ {
        FormFactor::Tablet
    } else if category == "smartphone"@ {
        FormFactor::Phone
    } else {
        FormFactor::Other
    }
}

/// The major version: the text before the first `.` read as a `u32`, zero where it is not one.
pub open spec fn major_version(version: Seq<char>) -> u32 {
    match unsigned_decimal(split_on(version, '.')[0]) {
        Some(n) => if n <= u32::MAX {
            n as u32
        } else {
            0u32
        },
        None => 0u32,
    }
}

/// The woothee fields used for a user agent: the parser's fields (empty where it
/// yields nothing), except that a Safari agent that does not mention `firefox/`
/// is taken for Firefox on an iPad (which reports the desktop Safari agent).
pub open spec fn effective_fields(ua: Seq<char>) -> (Seq<char>, Seq<char>, Seq<char>, Seq<char>) {
    fields_effective(ua, woothee_parse(ua))
}

/// The woothee fields used for a user agent, given the parser's fields `parsed` (see
/// `effective_fields`).
pub open spec fn fields_effective(ua: Seq<char>, parsed: Option<(Seq<char>, Seq<char>, Seq<char>, Seq<char>)>) -> (
    Seq<char>,
    Seq<char>,
    Seq<char>,
    Seq<char>,
) {
    let f = match parsed {
        Some(f) => f,
        None => (Seq::<char>::empty(), Seq::<char>::empty(), Seq::<char>::empty(), Seq::<char>::empty()),
    };
    if unicode_lowercase(f.0) == "safari"@ && !has_substring(unicode_lowercase(ua), "firefox/"@) {
        ("firefox"@, "smartphone"@, "ipad"@, f.3)
    } else {
        f
    }
}

/// The device described by a user agent, or `None` where it is not a Firefox one.
pub open spec fn device_of(ua: Seq<char>) -> Option<(FormFactor, OsFamily, u32)> {
    device_from(ua, woothee_parse(ua))
}

/// The view of parser fields.
pub open spec fn ua_fields_view(f: Option<UaFields>) -> Option<(Seq<char>, Seq<char>, Seq<char>, Seq<char>)> {
    match f {
        Some(x) => Some((x.name@, x.category@, x.os@, x.version@)),
        None => None,
    }
}

/// The device described by a user agent with the parser's fields `parsed`, or `None`
/// where it is not a Firefox one.
pub open spec fn device_from(ua: Seq<char>, parsed: Option<(Seq<char>, Seq<char>, Seq<char>, Seq<char>)>) -> Option<
    (FormFactor, OsFamily, u32),
> {
    let f = fields_effective(ua, parsed);
    if unicode_lowercase(f.0) != "firefox"@ {
        None
    } else {
        let os = unicode_lowercase(f.2);
        Some((form_factor_of(f.1, os), os_family_of(os), major_version(f.3)))
    }
}

/// The simplified operating system family of a lower-cased woothee `os` field.
fn classify_os(os: &str) -> (r: OsFamily)
    ensures
        r == os_family_of(os@),
{
    proof {
        reveal_strlit("windows");
        reveal_strlit("mac osx");
        reveal_strlit("linux");
        reveal_strlit("iphone");
        reveal_strlit("ipad");
        reveal_strlit("android");
        reveal_strlit("chromeos");
        reveal_strlit("blackberry");
    }
    if starts_with(os, "windows") {
        OsFamily::Windows
    } else if str_eq(os, "mac osx") {
        OsFamily::MacOs
    } else if str_eq(os, "linux") {
        OsFamily::Linux
    } else if str_eq(os, "iphone") || str_eq(os, "ipad") {
        OsFamily::IOs
    } else if str_eq(os, "android") {
        OsFamily::Android
    } else if str_eq(os, "chromeos") {
        OsFamily::ChromeOs
    } else if str_eq(os, "blackberry") {
        OsFamily::BlackBerry
    } else {
        OsFamily::Other
    }
}

/// The form factor of a woothee `category` field, given the lower-cased `os` field.
fn classify_form_factor(category: &str, os: &str) -> (r: FormFactor)
    ensures
        r == form_factor_of(category@, os@),
{
    if str_eq(category, "pc") {
        FormFactor::Desktop
    } else if str_eq(category, "smartphone") && str_eq(os, "ipad") {
        FormFactor::Tablet
    } else if str_eq(category, "smartphone") {
        FormFactor::Phone
    } else {
        FormFactor::Other
    }
}

/// The major version of a version text.
fn parse_major_version(version: &str) -> (r: u32)
    ensures
        r == major_version(version@),
{
    let parts = split_char(version, '.');
    proof {
        lemma_split_len(version@, '.');
    }
    assert(parts@.len() >= 1) by {
        assert(strs_view(parts@).len() == parts@.len());
    }
    assert(parts@[0]@ == split_on(version@, '.')[0]) by {
        assert(strs_view(parts@)[0] == parts@[0]@);
    }
    match parse_unsigned(parts[0].as_str(), 4294967295u64) {
        Some(n) => n as u32,
        None => 0,
    }
}

/// Parse a User-Agent header into a simplified `DeviceInfo`. Agents that are not
/// Firefox are refused with an `InvalidUA` error whose extra data holds the agent
/// (`ua`) and the lower-cased browser name (`name`, where it is not empty).
pub fn get_device_info(ua: &str) -> (r: HandlerResult<DeviceInfo>)
    ensures
        match (r, device_of(ua@)) {
            (Ok(d), Some(x)) => d.form_factor == x.0 && d.os_family == x.1 && d.ff_version == x.2,
            (Err(e), None) => e.spec_kind() == HandlerErrorKind::InvalidUA
                && (ua@.len() > 0 ==> e.tags.extra_map().contains_key("ua"@) && e.tags.extra_map()["ua"@]
                == ua@) && (unicode_lowercase(effective_fields(ua@).0).len() > 0
                ==> e.tags.extra_map().contains_key("name"@) && e.tags.extra_map()["name"@]
                == unicode_lowercase(effective_fields(ua@).0)),
            _ => false,
        },
{
    let fields = woothee_fields(ua);
    assert(ua_fields_view(fields) == woothee_parse(ua@));
    device_info_from_fields(ua, fields)
}

/// The device described by a user agent whose `woothee` fields are `fields` (see
/// `device_from`); agents that are not Firefox are refused as in `get_device_info`.
pub fn device_info_from_fields(ua: &str, fields: Option<UaFields>) -> (r: HandlerResult<DeviceInfo>)
    ensures
        match (r, device_from(ua@, ua_fields_view(fields))) {
            (Ok(d), Some(x)) => d.form_factor == x.0 && d.os_family == x.1 && d.ff_version == x.2,
            (Err(e), None) => e.spec_kind() == HandlerErrorKind::InvalidUA
                && (ua@.len() > 0 ==> e.tags.extra_map().contains_key("ua"@) && e.tags.extra_map()["ua"@]
                == ua@) && (unicode_lowercase(fields_effective(ua@, ua_fields_view(fields)).0).len() > 0
                ==> e.tags.extra_map().contains_key("name"@) && e.tags.extra_map()["name"@]
                == unicode_lowercase(fields_effective(ua@, ua_fields_view(fields)).0)),
            _ => false,
        },
{
    proof {
        reveal_strlit("safari");
        reveal_strlit("firefox/");
        reveal_strlit("firefox");
        reveal_strlit("smartphone");
        reveal_strlit("ipad");
        reveal_strlit("ua");
        reveal_strlit("name");
    }
    let (mut name, mut category, mut os, version) = match fields {
        Some(f) => (f.name, f.category, f.os, f.version),
        None => (String::new(), String::new(), String::new(), String::new()),
    };
    proof {
        assert(all_ascii("firefox"@));
        assert("firefox"@.map_values(|c: char| ascii_lower_char(c)) =~= "firefox"@);
    }
    let lname = to_lowercase(name.as_str());
    if str_eq(lname.as_str(), "safari") {
        let lua = to_lowercase(ua);
        if !contains_str(lua.as_str(), "firefox/") {
            name = copy_str("firefox");
            category = copy_str("smartphone");
            os = copy_str("ipad");
        }
    }
    let lname = to_lowercase(name.as_str());
    if !str_eq(lname.as_str(), "firefox") {
        let mut err = HandlerError::new(HandlerErrorKind::InvalidUA);
        err.tags.add_extra("ua", ua);
        let ghost after_ua = err.tags.extra_map();
        err.tags.add_extra("name", lname.as_str());
        proof {
            assert("ua"@.len() != "name"@.len());
            assert(ua@.len() > 0 ==> after_ua.contains_key("ua"@) && after_ua["ua"@] == ua@);
        }
        return Err(err);
    }
    let los = to_lowercase(os.as_str());
    let os_family = classify_os(los.as_str());
    let form_factor = classify_form_factor(category.as_str(), los.as_str());
    let ff_version = parse_major_version(version.as_str());
    Ok(DeviceInfo { form_factor, os_family, ff_version })
}

} // verus!
