//! Pagination: request-side page selection and the response-side envelope
//! derived from response headers.
//!
//! The envelope is built from four fixed response-metadata headers, read in
//! a fixed order: `X-Pagination-Page`, `X-Pagination-Limit`,
//! `X-Pagination-Page-Count`, `X-Pagination-Item-Count`.  The first header
//! that is missing, not text, or not an unsigned integer determines the
//! error.

use vstd::prelude::*;

use crate::error::{ApiError, DeserializeError, FromHttpError, HeaderError, api_error_of};

verus! {

/// Page number and page size requested from a paginated endpoint.
///
/// Default values are `page = 1` and `limit = 10`.
#[derive(Debug, Copy, Clone, Eq, PartialEq, Hash, Structural)]
pub struct Pagination {
    pub page: usize,
    pub limit: usize,
}

impl Pagination {
    /// A pagination at the given page with the given page size.
    pub fn new(page: usize, limit: usize) -> (r: Self)
        ensures
            r.page == page && r.limit == limit,
    {
        Pagination { page, limit }
    }
}

impl Default for Pagination {
    /// The first page, ten items per page.
    fn default() -> (r: Self)
        ensures
            r.page == 1 && r.limit == 10,
    {
        Pagination { page: 1, limit: 10 }
    }
}

/// The outside header map type that responses carry.
#[verifier::external_type_specification]
#[verifier::external_body]
#[verifier::reject_recursive_types(T)]
pub struct ExHeaderMap<T>(http::HeaderMap<T>);

/// The outside header value type stored in a header map.
#[verifier::external_type_specification]
#[verifier::external_body]
pub struct ExHeaderValue(http::HeaderValue);

/// The bytes of the first value that a header map holds under a name, if
/// any.
pub uninterp spec fn header_first(map: http::HeaderMap, name: Seq<char>) -> Option<Seq<u8>>;

/// Relies on `http::HeaderMap::get` and `http::HeaderValue::as_bytes`: the
/// first value stored under the name, as raw bytes, or `None` when the map
/// holds no value under it.
#[verifier::external_body]
fn header_lookup(map: &http::HeaderMap, name: &str) -> (r: Option<Vec<u8>>)
    ensures
        match r {
            Some(v) => header_first(*map, name@) == Some(v@),
            None => header_first(*map, name@) is None,
        },
{
    map.get(name).map(|v| v.as_bytes().to_vec())
}

/// True for the bytes that a header value may hold and still count as
/// text: the visible ASCII range, space, and the horizontal tab.
pub open spec fn visible_ascii(b: u8) -> bool {
    (32 <= b && b < 127) || b == 9
}

/// Whether every byte of the value counts as text.
pub open spec fn all_visible(s: Seq<u8>) -> bool {
    forall|i: int| 0 <= i < s.len() ==> visible_ascii(s[i])
}

/// An ASCII decimal digit.
pub open spec fn is_digit(b: u8) -> bool {
    0x30 <= b <= 0x39
}

/// Whether every byte is a decimal digit.
pub open spec fn all_digits(s: Seq<u8>) -> bool {
    forall|i: int| 0 <= i < s.len() ==> is_digit(s[i])
}

/// The value of a digit string, most significant digit first.
pub open spec fn digits_value(s: Seq<u8>) -> int
    decreases s.len(),
{
    if s.len() == 0 {
        0
    } else {
        digits_value(s.drop_last()) * 10 + (s.last() - 0x30)
    }
}

/// The unsigned integer that a byte string parses to: an optional leading
/// `+`, then at least one decimal digit and nothing else.
pub open spec fn parsed_uint(s: Seq<u8>) -> Option<int> {
    let digits = if s.len() >= 1 && s[0] == 0x2b {
        s.drop_first()
    } else {
        s
    };
    if digits.len() > 0 && all_digits(digits) {
        Some(digits_value(digits))
    } else {
        None
    }
}

/// A digit string's value is never negative.
pub proof fn lemma_digits_value_nonneg(s: Seq<u8>)
    requires
        all_digits(s),
    ensures
        digits_value(s) >= 0,
    decreases s.len(),
{
    if s.len() != 0 {
        assert(all_digits(s.drop_last()));
        lemma_digits_value_nonneg(s.drop_last());
    }
}

/// Extending a digit string never shrinks its value.
pub proof fn lemma_digits_value_prefix(s: Seq<u8>, j: int)
    requires
        all_digits(s),
        0 <= j <= s.len(),
    ensures
        digits_value(s) >= digits_value(s.subrange(0, j)),
    decreases s.len() - j,
{
    if j == s.len() {
        assert(s.subrange(0, j) =~= s);
    } else {
        let p = s.subrange(0, j);
        let q = s.subrange(0, j + 1);
        assert(all_digits(p));
        assert(q.drop_last() =~= p);
        assert(q.last() == s[j]);
        lemma_digits_value_nonneg(p);
        assert(digits_value(q) == digits_value(p) * 10 + (s[j] - 0x30));
        assert(digits_value(q) >= digits_value(p));
        lemma_digits_value_prefix(s, j + 1);
    }
}

/// Parses an unsigned decimal integer, with an optional leading `+`.
/// Yields `None` when the bytes do not parse or the value does not fit.
pub fn parse_usize(s: &[u8]) -> (r: Option<usize>)
    ensures
        match r {
            Some(n) => parsed_uint(s@) == Some(n as int),
            None => parsed_uint(s@) is None || parsed_uint(s@).unwrap() > usize::MAX,
        },
{
    let ghost whole = s@;
    let start: usize = if s.len() >= 1 && s[0] == 0x2b {
        1
    } else {
        0
    };
    let ghost digits = if whole.len() >= 1 && whole[0] == 0x2b {
        whole.drop_first()
    } else {
        whole
    };
    proof {
        assert(digits =~= whole.subrange(start as int, whole.len() as int));
    }
    if start == s.len() {
        return None;
    }
    let mut acc: usize = 0;
    let mut i: usize = start;
    proof {
        assert(digits.subrange(0, 0) =~= Seq::<u8>::empty());
    }
    while i < s.len()
        invariant
            start <= i <= whole.len(),
            digits == whole.subrange(start as int, whole.len() as int),
            all_digits(digits.subrange(0, i - start)),
            acc == digits_value(digits.subrange(0, i - start)),
        decreases whole.len() - i,
    {
        let b = s[i];
        if b < 0x30 || b > 0x39 {
            proof {
                assert(digits[i - start] == whole[i as int]);
                assert(!is_digit(digits[i - start]));
            }
            return None;
        }
        let d = (b - 0x30) as usize;
        let ghost prefix = digits.subrange(0, i - start);
        proof {
            assert(digits.subrange(0, i - start + 1).drop_last() =~= prefix);
            assert(digits.subrange(0, i - start + 1).last() == digits[i - start]);
            assert(digits[i - start] == whole[i as int]);
        }
        if acc > (usize::MAX - d) / 10 {
            proof {
                assert(digits_value(digits.subrange(0, i - start + 1)) == acc * 10 + d);
                assert(acc * 10 + d > usize::MAX) by (nonlinear_arith)
                    requires
                        acc > (usize::MAX - d) / 10,
                        d <= 9,
                ;
                if all_digits(digits) {
                    lemma_digits_value_prefix(digits, i - start + 1);
                    assert(parsed_uint(whole).unwrap() > usize::MAX);
                }
            }
            return None;
        }
        acc = acc * 10 + d;
        proof {
            assert(all_digits(digits.subrange(0, i - start + 1)));
            assert(acc == digits_value(digits.subrange(0, i - start + 1)));
        }
        i = i + 1;
    }
    proof {
        assert(digits.subrange(0, whole.len() - start) =~= digits);
        assert(digits.len() > 0);
        assert(parsed_uint(whole) == Some(acc as int));
    }
    Some(acc)
}

/// Reading one numeric header: absent, not text, or not an integer in
/// range, in that order of failure.
pub open spec fn header_value_spec(map: http::HeaderMap, name: Seq<char>) -> Result<
    int,
    DeserializeError,
> {
    match header_first(map, name) {
        None => Err(DeserializeError::Header(HeaderError::MissingHeader)),
        Some(bytes) => if !all_visible(bytes) {
            Err(DeserializeError::Header(HeaderError::ToStrError))
        } else {
            match parsed_uint(bytes) {
                None => Err(DeserializeError::ParseInt),
                Some(v) => if v > usize::MAX {
                    Err(DeserializeError::ParseInt)
                } else {
                    Ok(v)
                },
            }
        },
    }
}

/// Whether every byte of the value counts as text.
fn check_visible(s: &[u8]) -> (r: bool)
    ensures
        r == all_visible(s@),
{
    let mut i: usize = 0;
    while i < s.len()
        invariant
            i <= s@.len(),
            forall|l: int| 0 <= l < i ==> visible_ascii(s@[l]),
        decreases s@.len() - i,
    {
        let b = s[i];
        if !((32 <= b && b < 127) || b == 9) {
            proof {
                assert(!visible_ascii(s@[i as int]));
            }
            return false;
        }
        i = i + 1;
    }
    true
}

/// Reads one header and parses it as an unsigned integer.
///
/// Fails with `MissingHeader` when the header is absent, `ToStrError` when
/// its value is not text, and `ParseInt` when the text is not an unsigned
/// integer that fits.
pub fn parse_from_header(map: &http::HeaderMap, key: &str) -> (r: Result<usize, DeserializeError>)
    ensures
        match r {
            Ok(n) => header_value_spec(*map, key@) == Ok::<int, DeserializeError>(n as int),
            Err(e) => header_value_spec(*map, key@) == Err::<int, DeserializeError>(e),
        },
{
    let bytes = match header_lookup(map, key) {
        Some(bytes) => bytes,
        None => {
            return Err(DeserializeError::Header(HeaderError::MissingHeader));
        },
    };
    if !check_visible(bytes.as_slice()) {
        return Err(DeserializeError::Header(HeaderError::ToStrError));
    }
    match parse_usize(bytes.as_slice()) {
        Some(n) => Ok(n),
        None => Err(DeserializeError::ParseInt),
    }
}

/// A paginated response: the items of the current page and the envelope
/// read from the response headers.
#[derive(Debug, Clone, Eq, PartialEq, Hash)]
pub struct PaginationResponse<T> {
    pub items: Vec<T>,
    pub current_page: usize,
    pub items_per_page: usize,
    pub total_pages: usize,
    pub total_items: usize,
}

impl<T> PaginationResponse<T> {
    /// Builds the envelope from the page items and the response headers.
    ///
    /// The four headers are read in a fixed order — page, limit, page
    /// count, item count — and the first failing one determines the error.
    pub fn from_headers(items: Vec<T>, map: &http::HeaderMap) -> (r: Result<
        Self,
        DeserializeError,
    >)
        ensures
            ({
                let page = header_value_spec(*map, "X-Pagination-Page"@);
                let limit = header_value_spec(*map, "X-Pagination-Limit"@);
                let pages = header_value_spec(*map, "X-Pagination-Page-Count"@);
                let total = header_value_spec(*map, "X-Pagination-Item-Count"@);
                match r {
                    Ok(resp) => {
                        &&& page == Ok::<int, DeserializeError>(resp.current_page as int)
                        &&& limit == Ok::<int, DeserializeError>(resp.items_per_page as int)
                        &&& pages == Ok::<int, DeserializeError>(resp.total_pages as int)
                        &&& total == Ok::<int, DeserializeError>(resp.total_items as int)
                        &&& resp.items@ == items@
                    },
                    Err(e) => {
                        ||| page == Err::<int, DeserializeError>(e)
                        ||| (page is Ok && limit == Err::<int, DeserializeError>(e))
                        ||| (page is Ok && limit is Ok && pages == Err::<int, DeserializeError>(e))
                        ||| (page is Ok && limit is Ok && pages is Ok && total == Err::<
                            int,
                            DeserializeError,
                        >(e))
                    },
                }
            }),
    {
        let current_page = parse_from_header(map, "X-Pagination-Page")?;
        let items_per_page = parse_from_header(map, "X-Pagination-Limit")?;
        let total_pages = parse_from_header(map, "X-Pagination-Page-Count")?;
        let total_items = parse_from_header(map, "X-Pagination-Item-Count")?;
        Ok(PaginationResponse { items, current_page, items_per_page, total_pages, total_items })
    }

    /// The pagination that fetches the page after this one, or `None` on
    /// the last page.
    ///
    /// `None` exactly when `current_page >= total_pages`; otherwise the
    /// page number grows by one and the page size is kept.
    pub fn next_page(&self) -> (r: Option<Pagination>)
        ensures
            r is Some <==> self.current_page < self.total_pages,
            r is Some ==> r.unwrap().page == self.current_page + 1 && r.unwrap().limit
                == self.items_per_page,
    {
        if self.current_page < self.total_pages {
            Some(Pagination::new(self.current_page + 1, self.items_per_page))
        } else {
            None
        }
    }
}

/// The status-checking half of response handling.
///
/// The body is decoded by the caller only when the status is the expected
/// one; any other status maps to its [`ApiError`].
pub fn check_response_status(status: u16, expected: u16) -> (r: Result<(), FromHttpError>)
    ensures
        match r {
            Ok(()) => status == expected,
            Err(e) => status != expected && e == FromHttpError::Api(api_error_of(status)),
        },
{
    if status == expected {
        Ok(())
    } else {
        Err(FromHttpError::Api(ApiError::from(status)))
    }
}

} // verus!
