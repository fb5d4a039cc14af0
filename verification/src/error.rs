//! Common errors
use vstd::prelude::*;

use crate::tags::Tags;
use crate::text::{concat, copy_str};

verus! {

/// What the handlers learn of a failed HTTP request to a partner.
#[derive(Debug)]
pub struct RequestFailure {
    /// A description of the failure.
    pub message: String,
    /// Whether the request timed out.
    pub is_timeout: bool,
    /// Whether the connection could not be made.
    pub is_connect: bool,
}

/// The specific context types of `HandlerError`.
#[derive(Debug)]
pub enum HandlerErrorKind {
    /// An unspecified General error, usually via an external service or crate
    General(String),
    /// A specific Internal error.
    Internal(String),
    /// An error fetching information from ADM
    Reqwest(RequestFailure),
    /// An error validating the tile information recv'd from ADM
    Validation(String),
    /// A tile contained an invalid host url
    InvalidHost(&'static str, String),
    /// A tile image is invalid
    BadImage(&'static str),
    /// A tile was from an unrecognized host
    UnexpectedHost(&'static str, String),
    /// A tile contained an unrecognized `advertiser_url` host
    UnexpectedAdvertiser(String),
    /// A tile was missing a host, or presented an unparsable one.
    MissingHost(&'static str, String),
    /// The Location information for the request could not be resolved
    Location(String),
    /// ADM returned an invalid or unexpected response
    BadAdmResponse(String),
    /// ADM Servers returned an error
    AdmServerError(),
    /// ADM Server timeout while loading cache.
    AdmLoadError(),
    /// Invalid UserAgent request
    InvalidUA,
    /// A cloud storage call failed
    CloudStorage(String),
}

/// An error kind as seen by specifications: its payload texts by their views.
pub enum KindView {
    General(Seq<char>),
    Internal(Seq<char>),
    Reqwest(Seq<char>, bool, bool),
    Validation(Seq<char>),
    InvalidHost(Seq<char>, Seq<char>),
    BadImage(Seq<char>),
    UnexpectedHost(Seq<char>, Seq<char>),
    UnexpectedAdvertiser(Seq<char>),
    MissingHost(Seq<char>, Seq<char>),
    Location(Seq<char>),
    BadAdmResponse(Seq<char>),
    AdmServerError,
    AdmLoadError,
    InvalidUA,
    CloudStorage(Seq<char>),
}

impl View for HandlerErrorKind {
    type V = KindView;

    open spec fn view(&self) -> KindView {
        match self {
            HandlerErrorKind::General(s) => KindView::General(s@),
            HandlerErrorKind::Internal(s) => KindView::Internal(s@),
            HandlerErrorKind::Reqwest(e) => KindView::Reqwest(e.message@, e.is_timeout, e.is_connect),
            HandlerErrorKind::Validation(s) => KindView::Validation(s@),
            HandlerErrorKind::InvalidHost(sp, s) => KindView::InvalidHost(sp@, s@),
            HandlerErrorKind::BadImage(s) => KindView::BadImage(s@),
            HandlerErrorKind::UnexpectedHost(sp, s) => KindView::UnexpectedHost(sp@, s@),
            HandlerErrorKind::UnexpectedAdvertiser(s) => KindView::UnexpectedAdvertiser(s@),
            HandlerErrorKind::MissingHost(sp, s) => KindView::MissingHost(sp@, s@),
            HandlerErrorKind::Location(s) => KindView::Location(s@),
            HandlerErrorKind::BadAdmResponse(s) => KindView::BadAdmResponse(s@),
            HandlerErrorKind::AdmServerError() => KindView::AdmServerError,
            HandlerErrorKind::AdmLoadError() => KindView::AdmLoadError,
            HandlerErrorKind::InvalidUA => KindView::InvalidUA,
            HandlerErrorKind::CloudStorage(s) => KindView::CloudStorage(s@),
        }
    }
}

/// A name for what `format!("{:?}", s)` yields for a text `s`: the text quoted and escaped.
pub uninterp spec fn debug_quoted(s: Seq<char>) -> Seq<char>;

/// Whether `c` is printable ASCII other than a quote or a backslash (left as is by `{:?}`).
pub open spec fn plain_char(c: char) -> bool {
    0x20 <= (c as u32) && (c as u32) <= 0x7e && c != '"' && c != '\\'
}

/// `format!("{:?}", s)` on a text. Believed: the result is `debug_quoted` of the text,
/// and a text of plain printable ASCII (no quote, no backslash) comes back between
/// double quotes unchanged, as the documentation of `char::escape_debug` gives.
#[verifier::external_body]
pub(crate) fn debug_string(s: &str) -> (r: String)
    ensures
        r@ == debug_quoted(s@),
        (forall|i: int| 0 <= i < s@.len() ==> plain_char(#[trigger] s@[i])) ==> r@ == seq!['"'] + s@
            + seq!['"'],
{
    format!("{:?}", s)
}

/// `prefix` followed by the quoted form of `s`.
fn with_debug(prefix: &str, s: &str) -> (r: String)
    ensures
        r@ == prefix@ + debug_quoted(s@),
{
    let q = debug_string(s);
    concat(prefix, q.as_str())
}

impl HandlerErrorKind {
    /// The HTTP status code rendered for this error.
    pub fn http_status(&self) -> (r: u16)
        ensures
            r == status_of(*self),
    {
        match self {
            HandlerErrorKind::Validation(_) => 400,
            HandlerErrorKind::AdmServerError() => 503,
            HandlerErrorKind::AdmLoadError() => 204,
            HandlerErrorKind::BadAdmResponse(_) | HandlerErrorKind::InvalidHost(_, _)
            | HandlerErrorKind::UnexpectedHost(_, _) | HandlerErrorKind::BadImage(_)
            | HandlerErrorKind::CloudStorage(_) => 502,
            HandlerErrorKind::InvalidUA => 403,
            _ => 500,
        }
    }

    /// The unique errno code of this kind of error.
    pub fn errno(&self) -> (r: i32)
        ensures
            r == (match self {
                HandlerErrorKind::General(_) => 500i32,
                HandlerErrorKind::Internal(_) => 510i32,
                HandlerErrorKind::Reqwest(_) => 520i32,
                HandlerErrorKind::BadAdmResponse(_) => 521i32,
                HandlerErrorKind::AdmServerError() => 522i32,
                HandlerErrorKind::AdmLoadError() => 523i32,
                HandlerErrorKind::Location(_) => 530i32,
                HandlerErrorKind::Validation(_) => 600i32,
                HandlerErrorKind::InvalidHost(_, _) => 601i32,
                HandlerErrorKind::UnexpectedHost(_, _) => 602i32,
                HandlerErrorKind::MissingHost(_, _) => 603i32,
                HandlerErrorKind::UnexpectedAdvertiser(_) => 604i32,
                HandlerErrorKind::BadImage(_) => 605i32,
                HandlerErrorKind::CloudStorage(_) => 620i32,
                HandlerErrorKind::InvalidUA => 700i32,
            }),
    {
        match self {
            HandlerErrorKind::General(_) => 500,
            HandlerErrorKind::Internal(_) => 510,
            HandlerErrorKind::Reqwest(_) => 520,
            HandlerErrorKind::BadAdmResponse(_) => 521,
            HandlerErrorKind::AdmServerError() => 522,
            HandlerErrorKind::AdmLoadError() => 523,
            HandlerErrorKind::Location(_) => 530,
            HandlerErrorKind::Validation(_) => 600,
            HandlerErrorKind::InvalidHost(_, _) => 601,
            HandlerErrorKind::UnexpectedHost(_, _) => 602,
            HandlerErrorKind::MissingHost(_, _) => 603,
            HandlerErrorKind::UnexpectedAdvertiser(_) => 604,
            HandlerErrorKind::BadImage(_) => 605,
            HandlerErrorKind::CloudStorage(_) => 620,
            HandlerErrorKind::InvalidUA => 700,
        }
    }

    /// The metric label emitted in place of an error report, for the errors that
    /// are not reported.
    pub fn metric_label(&self) -> (r: Option<&'static str>)
        ensures
            match self {
                HandlerErrorKind::InvalidUA => r is Some && r->0@ == "request.error.invalid_ua"@,
                _ => r is None,
            },
    {
        match self {
            HandlerErrorKind::InvalidUA => Some("request.error.invalid_ua"),
            _ => None,
        }
    }

    /// Whether this error should trigger an error report: all but an invalid user
    /// agent and a partner request that timed out or could not connect.
    pub fn is_sentry_event(&self) -> (r: bool)
        ensures
            r == (match self {
                HandlerErrorKind::InvalidUA => false,
                HandlerErrorKind::Reqwest(e) => !(e.is_timeout || e.is_connect),
                _ => true,
            }),
    {
        match self {
            HandlerErrorKind::InvalidUA => false,
            HandlerErrorKind::Reqwest(e) => !(e.is_timeout || e.is_connect),
            _ => true,
        }
    }

    /// The message of this error (what its `Display` shows).
    pub fn message(&self) -> (r: String)
        ensures
            r@ == kind_message(*self),
    {
        match self {
            HandlerErrorKind::General(s) => with_debug("General error: ", s.as_str()),
            HandlerErrorKind::Internal(s) => with_debug("Internal error: ", s.as_str()),
            HandlerErrorKind::Reqwest(e) => concat("Reqwest error: ", e.message.as_str()),
            HandlerErrorKind::Validation(s) => with_debug("Validation error: ", s.as_str()),
            HandlerErrorKind::InvalidHost(species, s) => {
                let p = concat("Invalid ", species);
                let p = concat(p.as_str(), " Host: ");
                with_debug(p.as_str(), s.as_str())
            },
            HandlerErrorKind::BadImage(s) => with_debug("Invalid Image: ", s),
            HandlerErrorKind::UnexpectedHost(species, s) => {
                let p = concat("Unexpected ", species);
                let p = concat(p.as_str(), " Host: ");
                with_debug(p.as_str(), s.as_str())
            },
            HandlerErrorKind::UnexpectedAdvertiser(s) => with_debug(
                "Unexpected Advertiser: ",
                s.as_str(),
            ),
            HandlerErrorKind::MissingHost(species, s) => {
                let p = concat("Missing ", species);
                let p = concat(p.as_str(), " Host: ");
                with_debug(p.as_str(), s.as_str())
            },
            HandlerErrorKind::Location(s) => with_debug("Location error: ", s.as_str()),
            HandlerErrorKind::BadAdmResponse(s) => with_debug("Bad Adm response: ", s.as_str()),
            HandlerErrorKind::AdmServerError() => copy_str("Adm Server Error"),
            HandlerErrorKind::AdmLoadError() => copy_str("Adm Cache Load Error"),
            HandlerErrorKind::InvalidUA => copy_str("Invalid user agent"),
            HandlerErrorKind::CloudStorage(s) => concat("Cloud Storage error: ", s.as_str()),
        }
    }

    /// The text sent to the client for this error.
    pub fn as_response_string(&self) -> (r: String)
        ensures
            r@ == response_text(*self),
    {
        match self {
            HandlerErrorKind::General(_) | HandlerErrorKind::Internal(_) => self.message(),
            HandlerErrorKind::Reqwest(_) => copy_str("An error occurred while trying to request data"),
            HandlerErrorKind::BadAdmResponse(_) | HandlerErrorKind::AdmServerError()
            | HandlerErrorKind::AdmLoadError() | HandlerErrorKind::Validation(_)
            | HandlerErrorKind::InvalidHost(_, _) | HandlerErrorKind::UnexpectedHost(_, _)
            | HandlerErrorKind::MissingHost(_, _) | HandlerErrorKind::UnexpectedAdvertiser(_)
            | HandlerErrorKind::BadImage(_) => copy_str("An invalid response received from the partner"),
            HandlerErrorKind::Location(_) => self.message(),
            HandlerErrorKind::CloudStorage(_) => copy_str("Could not cache an tile image"),
            HandlerErrorKind::InvalidUA => copy_str("This service is for firefox only"),
        }
    }
}

/// The HTTP status code rendered for an error kind.
pub open spec fn status_of(k: HandlerErrorKind) -> u16 {
    match k {
        HandlerErrorKind::Validation(_) => 400u16,
        HandlerErrorKind::AdmServerError() => 503u16,
        HandlerErrorKind::AdmLoadError() => 204u16,
        HandlerErrorKind::BadAdmResponse(_) | HandlerErrorKind::InvalidHost(_, _)
        | HandlerErrorKind::UnexpectedHost(_, _) | HandlerErrorKind::BadImage(_)
        | HandlerErrorKind::CloudStorage(_) => 502u16,
        HandlerErrorKind::InvalidUA => 403u16,
        _ => 500u16,
    }
}

/// The text sent to the client for an error kind.
pub open spec fn response_text(k: HandlerErrorKind) -> Seq<char> {
    match k {
        HandlerErrorKind::General(_) | HandlerErrorKind::Internal(_)
        | HandlerErrorKind::Location(_) => kind_message(k),
        HandlerErrorKind::Reqwest(_) => "An error occurred while trying to request data"@,
        HandlerErrorKind::CloudStorage(_) => "Could not cache an tile image"@,
        HandlerErrorKind::InvalidUA => "This service is for firefox only"@,
        _ => "An invalid response received from the partner"@,
    }
}

/// The message of an error kind (its `Display` text).
pub open spec fn kind_message(k: HandlerErrorKind) -> Seq<char> {
    match k {
        HandlerErrorKind::General(s) => "General error: "@ + debug_quoted(s@),
        HandlerErrorKind::Internal(s) => "Internal error: "@ + debug_quoted(s@),
        HandlerErrorKind::Reqwest(e) => "Reqwest error: "@ + e.message@,
        HandlerErrorKind::Validation(s) => "Validation error: "@ + debug_quoted(s@),
        HandlerErrorKind::InvalidHost(sp, s) => "Invalid "@ + sp@ + " Host: "@ + debug_quoted(s@),
        HandlerErrorKind::BadImage(s) => "Invalid Image: "@ + debug_quoted(s@),
        HandlerErrorKind::UnexpectedHost(sp, s) => "Unexpected "@ + sp@ + " Host: "@ + debug_quoted(s@),
        HandlerErrorKind::UnexpectedAdvertiser(s) => "Unexpected Advertiser: "@ + debug_quoted(s@),
        HandlerErrorKind::MissingHost(sp, s) => "Missing "@ + sp@ + " Host: "@ + debug_quoted(s@),
        HandlerErrorKind::Location(s) => "Location error: "@ + debug_quoted(s@),
        HandlerErrorKind::BadAdmResponse(s) => "Bad Adm response: "@ + debug_quoted(s@),
        HandlerErrorKind::AdmServerError() => "Adm Server Error"@,
        HandlerErrorKind::AdmLoadError() => "Adm Cache Load Error"@,
        HandlerErrorKind::InvalidUA => "Invalid user agent"@,
        HandlerErrorKind::CloudStorage(s) => "Cloud Storage error: "@ + s@,
    }
}

/// The standard error for most of the service: a kind and the tags to report with it.
#[derive(Debug)]
pub struct HandlerError {
    /// What went wrong.
    pub kind: HandlerErrorKind,
    /// Tags reported along with the error.
    pub tags: Box<Tags>,
}

/// The standard result type of the service.
pub type HandlerResult<T> = Result<T, HandlerError>;

impl HandlerError {
    /// The kind of the error.
    pub open spec fn spec_kind(&self) -> HandlerErrorKind {
        self.kind
    }

    /// An error of kind `kind`, with no tags.
    pub fn new(kind: HandlerErrorKind) -> (r: HandlerError)
        ensures
            r.spec_kind() == kind,
            r.tags.tag_map() == Map::<Seq<char>, Seq<char>>::empty(),
            r.tags.extra_map() == Map::<Seq<char>, Seq<char>>::empty(),
            r.tags.metric_map() == Map::<Seq<char>, Seq<char>>::empty(),
    {
        HandlerError { kind, tags: Box::new(Tags::new()) }
    }

    /// The kind of the error.
    pub fn kind(&self) -> (r: &HandlerErrorKind)
        ensures
            *r == self.spec_kind(),
    {
        &self.kind
    }

    /// An `Internal` error with the message `msg`.
    pub fn internal(msg: &str) -> (r: HandlerError)
        ensures
            r.kind@ == KindView::Internal(msg@),
            r.tags.tag_map() == Map::<Seq<char>, Seq<char>>::empty(),
            r.tags.extra_map() == Map::<Seq<char>, Seq<char>>::empty(),
    {
        HandlerError::new(HandlerErrorKind::Internal(copy_str(msg)))
    }

    /// The HTTP status, errno and client message of the error response.
    pub fn response_parts(&self) -> (r: (u16, i32, String))
        ensures
            r.0 == status_of(self.spec_kind()),
            r.1 == self.spec_kind().errno_spec(),
            r.2@ == response_text(self.spec_kind()),
    {
        (self.kind.http_status(), self.kind.errno(), self.kind.as_response_string())
    }
}

impl HandlerErrorKind {
    /// The errno code of this kind (see `errno`).
    pub open spec fn errno_spec(&self) -> i32 {
        match self {
            HandlerErrorKind::General(_) => 500i32,
            HandlerErrorKind::Internal(_) => 510i32,
            HandlerErrorKind::Reqwest(_) => 520i32,
            HandlerErrorKind::BadAdmResponse(_) => 521i32,
            HandlerErrorKind::AdmServerError() => 522i32,
            HandlerErrorKind::AdmLoadError() => 523i32,
            HandlerErrorKind::Location(_) => 530i32,
            HandlerErrorKind::Validation(_) => 600i32,
            HandlerErrorKind::InvalidHost(_, _) => 601i32,
            HandlerErrorKind::UnexpectedHost(_, _) => 602i32,
            HandlerErrorKind::MissingHost(_, _) => 603i32,
            HandlerErrorKind::UnexpectedAdvertiser(_) => 604i32,
            HandlerErrorKind::BadImage(_) => 605i32,
            HandlerErrorKind::CloudStorage(_) => 620i32,
            HandlerErrorKind::InvalidUA => 700i32,
        }
    }
}

} // verus!
