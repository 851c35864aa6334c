use http::{HeaderMap, HeaderValue};
use trakt_core::error::{ApiError, DeserializeError, FromHttpError, HeaderError};
use trakt_core::utils::{check_response_status, parse_from_header, parse_usize, Pagination, PaginationResponse};

#[test]
fn test_parse_from_header() {
    let mut map = HeaderMap::new();
    map.insert("B", HeaderValue::from_bytes(b"hello\xfa").unwrap());
    map.insert("C", HeaderValue::from_static("hello"));
    map.insert("D", HeaderValue::from_static("10"));

    assert!(matches!(
        parse_from_header(&map, "A"),
        Err(DeserializeError::Header(HeaderError::MissingHeader))
    ));
    assert!(matches!(
        parse_from_header(&map, "B"),
        Err(DeserializeError::Header(HeaderError::ToStrError))
    ));
    assert!(matches!(
        parse_from_header(&map, "C"),
        Err(DeserializeError::ParseInt)
    ));
    assert_eq!(parse_from_header(&map, "D").unwrap(), 10);
}

#[test]
fn pagination_envelope_last_page() {
    let mut map = HeaderMap::new();
    map.insert("X-Pagination-Page", HeaderValue::from_static("1"));
    map.insert("X-Pagination-Limit", HeaderValue::from_static("10"));
    map.insert("X-Pagination-Page-Count", HeaderValue::from_static("1"));
    map.insert("X-Pagination-Item-Count", HeaderValue::from_static("2"));

    let resp = PaginationResponse::from_headers(vec![7u32, 8u32], &map).unwrap();
    assert_eq!(resp.items, vec![7u32, 8u32]);
    assert_eq!(resp.current_page, 1);
    assert_eq!(resp.items_per_page, 10);
    assert_eq!(resp.total_pages, 1);
    assert_eq!(resp.total_items, 2);
    assert_eq!(resp.next_page(), None);
}

#[test]
fn pagination_envelope_more_pages() {
    let mut map = HeaderMap::new();
    map.insert("X-Pagination-Page", HeaderValue::from_static("1"));
    map.insert("X-Pagination-Limit", HeaderValue::from_static("10"));
    map.insert("X-Pagination-Page-Count", HeaderValue::from_static("3"));
    map.insert("X-Pagination-Item-Count", HeaderValue::from_static("21"));

    let resp = PaginationResponse::from_headers(Vec::<u32>::new(), &map).unwrap();
    assert_eq!(resp.next_page(), Some(Pagination::new(2, 10)));
}

#[test]
fn pagination_envelope_first_failure_wins() {
    // All four headers are read in a fixed order; the first failing one
    // determines the error.
    let mut map = HeaderMap::new();
    map.insert("X-Pagination-Limit", HeaderValue::from_static("oops"));
    let err = PaginationResponse::from_headers(Vec::<u32>::new(), &map).unwrap_err();
    assert!(matches!(
        err,
        DeserializeError::Header(HeaderError::MissingHeader)
    ));

    map.insert("X-Pagination-Page", HeaderValue::from_static("1"));
    let err = PaginationResponse::from_headers(Vec::<u32>::new(), &map).unwrap_err();
    assert!(matches!(err, DeserializeError::ParseInt));
}

#[test]
fn next_page_none_iff_at_last_page() {
    let make = |current: usize, total: usize| PaginationResponse {
        items: Vec::<u8>::new(),
        current_page: current,
        items_per_page: 25,
        total_pages: total,
        total_items: 100,
    };
    assert_eq!(make(3, 3).next_page(), None);
    assert_eq!(make(4, 3).next_page(), None);
    assert_eq!(make(2, 3).next_page(), Some(Pagination::new(3, 25)));
}

#[test]
fn pagination_default() {
    let p = Pagination::default();
    assert_eq!(p, Pagination::new(1, 10));
    assert_eq!(p.page, 1);
    assert_eq!(p.limit, 10);
}

#[test]
fn header_integer_parsing() {
    assert_eq!(parse_usize(b"0"), Some(0));
    assert_eq!(parse_usize(b"+10"), Some(10));
    assert_eq!(parse_usize(b"18446744073709551615"), Some(usize::MAX));
    assert_eq!(parse_usize(b"18446744073709551616"), None);
    assert_eq!(parse_usize(b"99999999999999999999999999"), None);
    assert_eq!(parse_usize(b""), None);
    assert_eq!(parse_usize(b"+"), None);
    assert_eq!(parse_usize(b"-1"), None);
    assert_eq!(parse_usize(b"1x"), None);
    assert_eq!(parse_usize(b" 1"), None);
}

#[test]
fn test_handle_response_body_ok() {
    let response = http::Response::builder()
        .status(http::StatusCode::OK)
        .body(b"\"hello\"")
        .unwrap();
    check_response_status(response.status().as_u16(), 200).unwrap();
    let body: String = serde_json::from_slice(response.body().as_ref()).unwrap();
    assert_eq!(body, "hello");
}

#[test]
fn test_handle_response_body_bad_request() {
    let response = http::Response::builder()
        .status(http::StatusCode::BAD_REQUEST)
        .body(b"\"hello\"")
        .unwrap();
    assert!(matches!(
        check_response_status(response.status().as_u16(), 200),
        Err(FromHttpError::Api(ApiError::BadRequest))
    ));
}

#[test]
fn api_error_of_every_status() {
    assert_eq!(ApiError::from(400), ApiError::BadRequest);
    assert_eq!(ApiError::from(401), ApiError::Unauthorized);
    assert_eq!(ApiError::from(403), ApiError::Forbidden);
    assert_eq!(ApiError::from(404), ApiError::NotFound);
    assert_eq!(ApiError::from(409), ApiError::AlreadyExists);
    assert_eq!(ApiError::from(410), ApiError::Expired);
    assert_eq!(ApiError::from(412), ApiError::InvalidContentType);
    assert_eq!(ApiError::from(418), ApiError::Denied);
    assert_eq!(ApiError::from(420), ApiError::AccountLimitExceeded);
    assert_eq!(ApiError::from(422), ApiError::ValidationError);
    assert_eq!(ApiError::from(423), ApiError::LockedUserAccount);
    assert_eq!(ApiError::from(426), ApiError::VipOnly);
    assert_eq!(ApiError::from(429), ApiError::RateLimitExceeded);
    assert_eq!(ApiError::from(500), ApiError::ServerError);
    assert_eq!(ApiError::from(502), ApiError::ServiceUnavailable);
    assert_eq!(ApiError::from(503), ApiError::ServiceUnavailable);
    assert_eq!(ApiError::from(504), ApiError::ServiceUnavailable);
    assert_eq!(ApiError::from(520), ApiError::CloudflareError);
    assert_eq!(ApiError::from(521), ApiError::CloudflareError);
    assert_eq!(ApiError::from(522), ApiError::CloudflareError);
    assert_eq!(ApiError::from(599), ApiError::UnknownError(599));
    assert_eq!(ApiError::from(200), ApiError::UnknownError(200));
}

#[test]
fn header_names_are_case_insensitive() {
    let mut map = HeaderMap::new();
    map.insert("x-pagination-page", HeaderValue::from_static("4"));
    assert_eq!(parse_from_header(&map, "X-Pagination-Page").unwrap(), 4);
    assert_eq!(parse_from_header(&map, "x-pagination-page").unwrap(), 4);
}
