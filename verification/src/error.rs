//! Error types for the API.
//!
//! Every component returns a typed failure and no partial result.  Each
//! error can render itself as a byte message through `message`, whose exact
//! text is pinned by a spec function.

use vstd::prelude::*;
use vstd::string::StringSliceAdditionalSpecFns;
use vstd::string::StrSliceExecFns;

verus! {

/// Appends all of `src` to `dst`.
pub fn push_bytes(dst: &mut Vec<u8>, src: &[u8])
    ensures
        final(dst)@ == old(dst)@ + src@,
{
    let mut i: usize = 0;
    while i < src.len()
        invariant
            i <= src@.len(),
            dst@ == old(dst)@ + src@.subrange(0, i as int),
        decreases src@.len() - i,
    {
        dst.push(src[i]);
        proof {
            assert(src@.subrange(0, i + 1) =~= src@.subrange(0, i as int).push(src@[i as int]));
            assert(dst@ =~= old(dst)@ + src@.subrange(0, i + 1));
        }
        i = i + 1;
    }
    proof {
        assert(src@.subrange(0, src@.len() as int) =~= src@);
    }
}

/// Copies a byte slice into a fresh vector.
pub fn bytes_of(src: &[u8]) -> (out: Vec<u8>)
    ensures
        out@ == src@,
{
    let mut out: Vec<u8> = Vec::new();
    push_bytes(&mut out, src);
    out
}

/// Failure of URL-template substitution or of value encoding.
#[derive(Debug, Clone, PartialEq, Eq)]
pub enum UrlError {
    /// A free-form message.
    Message(Vec<u8>),
    /// Something other than a record was substituted at the top level.
    TopLevel,
    /// The endpoint template has unbalanced, nested, or unterminated braces.
    InvalidEndpoint,
    /// A composite value cannot be encoded as a single token.
    ValueNotSupported,
    /// A supplied field matches no open placeholder of the template.
    KeyNotFound(Vec<u8>),
    /// A placeholder of the template was never filled.
    UnfilledField(Vec<u8>),
}

/// The exact message text of a [`UrlError`].
pub open spec fn url_error_message(e: UrlError) -> Seq<u8> {
    match e {
        UrlError::Message(s) => s@,
        UrlError::TopLevel => ("Top level serializer only supports structs").spec_bytes(),
        UrlError::InvalidEndpoint => ("Invalid endpoint").spec_bytes(),
        UrlError::ValueNotSupported => ("Value not supported").spec_bytes(),
        UrlError::KeyNotFound(k) => ("Key not found: ").spec_bytes() + k@,
        UrlError::UnfilledField(f) => ("Unfilled field: ").spec_bytes() + f@,
    }
}

impl UrlError {
    /// Renders the error as a byte message.
    pub fn message(&self) -> (m: Vec<u8>)
        ensures
            m@ == url_error_message(*self),
    {
        match self {
            UrlError::Message(s) => bytes_of(s.as_slice()),
            UrlError::TopLevel => ("Top level serializer only supports structs").as_bytes_vec(),
            UrlError::InvalidEndpoint => ("Invalid endpoint").as_bytes_vec(),
            UrlError::ValueNotSupported => ("Value not supported").as_bytes_vec(),
            UrlError::KeyNotFound(k) => {
                let mut m = ("Key not found: ").as_bytes_vec();
                push_bytes(&mut m, k.as_slice());
                m
            },
            UrlError::UnfilledField(f) => {
                let mut m = ("Unfilled field: ").as_bytes_vec();
                push_bytes(&mut m, f.as_slice());
                m
            },
        }
    }
}

/// The mathematical shape of a [`UrlError`]: the same variants over byte
/// sequences.
pub enum UrlErrorView {
    Message(Seq<u8>),
    TopLevel,
    InvalidEndpoint,
    ValueNotSupported,
    KeyNotFound(Seq<u8>),
    UnfilledField(Seq<u8>),
}

impl View for UrlError {
    type V = UrlErrorView;

    open spec fn view(&self) -> UrlErrorView {
        match self {
            UrlError::Message(s) => UrlErrorView::Message(s@),
            UrlError::TopLevel => UrlErrorView::TopLevel,
            UrlError::InvalidEndpoint => UrlErrorView::InvalidEndpoint,
            UrlError::ValueNotSupported => UrlErrorView::ValueNotSupported,
            UrlError::KeyNotFound(k) => UrlErrorView::KeyNotFound(k@),
            UrlError::UnfilledField(f) => UrlErrorView::UnfilledField(f@),
        }
    }
}

/// Error type for converting a request into an HTTP request.
#[derive(Debug, Clone, PartialEq, Eq)]
pub enum IntoHttpError {
    /// The path parameters could not be substituted into the template.
    UrlParams(UrlError),
    /// The query parameters could not be form-encoded.
    QueryParams(UrlError),
    /// The endpoint requires authorization but no token was given.
    MissingToken,
}

/// The mathematical shape of an [`IntoHttpError`].
pub enum IntoHttpErrorView {
    UrlParams(UrlErrorView),
    QueryParams(UrlErrorView),
    MissingToken,
}

impl View for IntoHttpError {
    type V = IntoHttpErrorView;

    open spec fn view(&self) -> IntoHttpErrorView {
        match self {
            IntoHttpError::UrlParams(e) => IntoHttpErrorView::UrlParams(e@),
            IntoHttpError::QueryParams(e) => IntoHttpErrorView::QueryParams(e@),
            IntoHttpError::MissingToken => IntoHttpErrorView::MissingToken,
        }
    }
}

/// The exact message text of an [`IntoHttpError`].
pub open spec fn into_http_error_message(e: IntoHttpError) -> Seq<u8> {
    match e {
        IntoHttpError::UrlParams(inner) => ("Url params error: ").spec_bytes()
            + url_error_message(inner),
        IntoHttpError::QueryParams(inner) => ("Query params error: ").spec_bytes()
            + url_error_message(inner),
        IntoHttpError::MissingToken => ("Missing oauth token").spec_bytes(),
    }
}

impl IntoHttpError {
    /// Renders the error as a byte message.
    pub fn message(&self) -> (m: Vec<u8>)
        ensures
            m@ == into_http_error_message(*self),
    {
        match self {
            IntoHttpError::UrlParams(inner) => {
                let mut m = ("Url params error: ").as_bytes_vec();
                let tail = inner.message();
                push_bytes(&mut m, tail.as_slice());
                m
            },
            IntoHttpError::QueryParams(inner) => {
                let mut m = ("Query params error: ").as_bytes_vec();
                let tail = inner.message();
                push_bytes(&mut m, tail.as_slice());
                m
            },
            IntoHttpError::MissingToken => ("Missing oauth token").as_bytes_vec(),
        }
    }
}

/// Failure to read one response-metadata header.
#[derive(Debug, Clone, Copy, PartialEq, Eq)]
pub enum HeaderError {
    /// The header value holds bytes that are not visible ASCII text.
    ToStrError,
    /// The header is absent.
    MissingHeader,
}

/// Failure to derive data from a response.
#[derive(Debug, Clone, Copy, PartialEq, Eq)]
pub enum DeserializeError {
    /// A header was missing or not text.
    Header(HeaderError),
    /// A header value was text but not an unsigned integer in range.
    ParseInt,
}

/// An error status reported by the API.
#[derive(Debug, Clone, Copy, PartialEq, Eq)]
pub enum ApiError {
    BadRequest,
    Unauthorized,
    Forbidden,
    NotFound,
    AlreadyExists,
    Expired,
    InvalidContentType,
    Denied,
    AccountLimitExceeded,
    ValidationError,
    LockedUserAccount,
    VipOnly,
    RateLimitExceeded,
    ServerError,
    ServiceUnavailable,
    CloudflareError,
    /// Any other status, carried as its numeric code.
    UnknownError(u16),
}

/// The [`ApiError`] that a numeric HTTP status code maps to.
pub open spec fn api_error_of(status: u16) -> ApiError {
    if status == 400 {
        ApiError::BadRequest
    } else if status == 401 {
        ApiError::Unauthorized
    } else if status == 403 {
        ApiError::Forbidden
    } else if status == 404 {
        ApiError::NotFound
    } else if status == 409 {
        ApiError::AlreadyExists
    } else if status == 410 {
        ApiError::Expired
    } else if status == 412 {
        ApiError::InvalidContentType
    } else if status == 418 {
        ApiError::Denied
    } else if status == 420 {
        ApiError::AccountLimitExceeded
    } else if status == 422 {
        ApiError::ValidationError
    } else if status == 423 {
        ApiError::LockedUserAccount
    } else if status == 426 {
        ApiError::VipOnly
    } else if status == 429 {
        ApiError::RateLimitExceeded
    } else if status == 500 {
        ApiError::ServerError
    } else if 502 <= status <= 504 {
        ApiError::ServiceUnavailable
    } else if 520 <= status <= 522 {
        ApiError::CloudflareError
    } else {
        ApiError::UnknownError(status)
    }
}

impl From<u16> for ApiError {
    /// Maps a numeric HTTP status code to its error.
    fn from(value: u16) -> (r: Self) {
        if value == 400 {
            ApiError::BadRequest
        } else if value == 401 {
            ApiError::Unauthorized
        } else if value == 403 {
            ApiError::Forbidden
        } else if value == 404 {
            ApiError::NotFound
        } else if value == 409 {
            ApiError::AlreadyExists
        } else if value == 410 {
            ApiError::Expired
        } else if value == 412 {
            ApiError::InvalidContentType
        } else if value == 418 {
            ApiError::Denied
        } else if value == 420 {
            ApiError::AccountLimitExceeded
        } else if value == 422 {
            ApiError::ValidationError
        } else if value == 423 {
            ApiError::LockedUserAccount
        } else if value == 426 {
            ApiError::VipOnly
        } else if value == 429 {
            ApiError::RateLimitExceeded
        } else if value == 500 {
            ApiError::ServerError
        } else if 502 <= value && value <= 504 {
            ApiError::ServiceUnavailable
        } else if 520 <= value && value <= 522 {
            ApiError::CloudflareError
        } else {
            ApiError::UnknownError(value)
        }
    }
}

impl vstd::std_specs::convert::FromSpecImpl<u16> for ApiError {
    open spec fn obeys_from_spec() -> bool {
        true
    }

    open spec fn from_spec(value: u16) -> Self {
        api_error_of(value)
    }
}

/// Failure to convert an HTTP response into a typed response.
#[derive(Debug, Clone, Copy, PartialEq, Eq)]
pub enum FromHttpError {
    /// The response carried an error status.
    Api(ApiError),
    /// The response data could not be decoded.
    Deserialize(DeserializeError),
}

} // verus!
