use trakt_core::error::{IntoHttpError, UrlError};
use trakt_core::search::{SearchType, SEARCH_MOVIE, SEARCH_SHOW};
use trakt_core::url::{construct_url, parse_endpoint, substitute, Field, Param, Params, Part, UrlSerializer};
use trakt_core::value::{CompositeKind, Value};

#[test]
fn test_parse_endpoint() {
    let endpoint = "/shows/{id}/seasons/{season}/episodes/{episode}";
    let parts = parse_endpoint(endpoint).unwrap();
    assert_eq!(
        parts,
        vec![
            Part::Raw(b"/shows/".to_vec()),
            Part::Param(Param::Key(b"id".to_vec())),
            Part::Raw(b"/seasons/".to_vec()),
            Part::Param(Param::Key(b"season".to_vec())),
            Part::Raw(b"/episodes/".to_vec()),
            Part::Param(Param::Key(b"episode".to_vec())),
        ]
    );

    let endpoint = "/shows/{id}/seasons/{season}/episodes/{episode}/";
    let parts = parse_endpoint(endpoint).unwrap();
    assert_eq!(
        parts,
        vec![
            Part::Raw(b"/shows/".to_vec()),
            Part::Param(Param::Key(b"id".to_vec())),
            Part::Raw(b"/seasons/".to_vec()),
            Part::Param(Param::Key(b"season".to_vec())),
            Part::Raw(b"/episodes/".to_vec()),
            Part::Param(Param::Key(b"episode".to_vec())),
            Part::Raw(b"/".to_vec()),
        ]
    );

    assert_eq!(
        parse_endpoint("/shows/{{id}}").unwrap_err(),
        UrlError::InvalidEndpoint
    );
    assert_eq!(
        parse_endpoint("/shows/{id}}").unwrap_err(),
        UrlError::InvalidEndpoint
    );
    assert_eq!(
        parse_endpoint("/shows/{id").unwrap_err(),
        UrlError::InvalidEndpoint
    );
}

#[test]
fn url_test_parse_endpoint() {
    let endpoint = "/shows/{id}/seasons/{season}/episodes/{episode}";
    let parts = parse_endpoint(endpoint).unwrap();
    assert_eq!(
        parts,
        vec![
            Part::Raw(b"/shows/".to_vec()),
            Part::Param(Param::Key(b"id".to_vec())),
            Part::Raw(b"/seasons/".to_vec()),
            Part::Param(Param::Key(b"season".to_vec())),
            Part::Raw(b"/episodes/".to_vec()),
            Part::Param(Param::Key(b"episode".to_vec())),
        ]
    );

    assert_eq!(
        parse_endpoint("/shows/{{id}}").unwrap_err(),
        UrlError::InvalidEndpoint
    );
    assert_eq!(
        parse_endpoint("/shows/{id}}").unwrap_err(),
        UrlError::InvalidEndpoint
    );
    assert_eq!(
        parse_endpoint("/shows/{id").unwrap_err(),
        UrlError::InvalidEndpoint
    );
}

#[test]
fn construct_url_normal() {
    let base_url = "https://example.com";
    let endpoint = "/shows/{id}";
    let params = Params::Record(vec![Field::new("id", Value::I32(1))]);
    let query = Params::Record(vec![
        Field::new("page", Value::I32(1)),
        Field::new("limit", Value::Absent),
    ]);

    let url = construct_url(base_url, endpoint, &params, &query).unwrap();
    assert_eq!(url, b"https://example.com/shows/1?page=1".to_vec());
}

#[test]
fn construct_url_no_query() {
    let base_url = "https://example.com";
    let endpoint = "/shows/{id}";
    let params = Params::Record(vec![Field::new("id", Value::I32(1))]);
    let query = Params::Bare(Value::Unit);

    let url = construct_url(base_url, endpoint, &params, &query).unwrap();
    assert_eq!(url, b"https://example.com/shows/1".to_vec());
}

#[test]
fn construct_url_unfilled() {
    let base_url = "https://example.com";
    let endpoint = "/shows/{id}/{unfilled}";
    let params = Params::Record(vec![Field::new("id", Value::I32(1))]);
    let query = Params::Bare(Value::Unit);

    let res = construct_url(base_url, endpoint, &params, &query).unwrap_err();
    assert_eq!(
        res.message(),
        b"Url params error: Unfilled field: unfilled".to_vec()
    );
}

#[test]
fn construct_url_invalid_endpoint() {
    let base_url = "https://example.com";
    let endpoint = "/shows/{{id}";
    let params = Params::Record(vec![Field::new("id", Value::I32(1))]);
    let query = Params::Bare(Value::Unit);

    let res = construct_url(base_url, endpoint, &params, &query).unwrap_err();
    assert_eq!(res.message(), b"Url params error: Invalid endpoint".to_vec());
}

#[test]
fn construct_url_empty() {
    let base_url = "https://example.com";
    let endpoint = "/shows";
    let params = Params::Bare(Value::Unit);
    let query = Params::Bare(Value::Unit);

    let url = construct_url(base_url, endpoint, &params, &query).unwrap();
    assert_eq!(url, b"https://example.com/shows".to_vec());
}

#[test]
fn url_serializer() {
    let mut serializer = UrlSerializer {
        url: Vec::new(),
        parts: vec![],
    };

    assert_eq!(
        serializer.serialize_bare(&Value::Bool(true)).unwrap_err(),
        UrlError::TopLevel
    );
    assert_eq!(
        serializer.serialize_bare(&Value::I8(1)).unwrap_err(),
        UrlError::TopLevel
    );
    assert_eq!(
        serializer.serialize_bare(&Value::I16(1)).unwrap_err(),
        UrlError::TopLevel
    );
    assert_eq!(
        serializer.serialize_bare(&Value::I32(1)).unwrap_err(),
        UrlError::TopLevel
    );
    assert_eq!(
        serializer.serialize_bare(&Value::I64(1)).unwrap_err(),
        UrlError::TopLevel
    );
    assert_eq!(
        serializer.serialize_bare(&Value::U8(1)).unwrap_err(),
        UrlError::TopLevel
    );
    assert_eq!(
        serializer.serialize_bare(&Value::U16(1)).unwrap_err(),
        UrlError::TopLevel
    );
    assert_eq!(
        serializer.serialize_bare(&Value::U32(1)).unwrap_err(),
        UrlError::TopLevel
    );
    assert_eq!(
        serializer.serialize_bare(&Value::U64(1)).unwrap_err(),
        UrlError::TopLevel
    );
    assert_eq!(
        serializer
            .serialize_bare(&Value::Float(String::from("2.5")))
            .unwrap_err(),
        UrlError::TopLevel
    );
    assert_eq!(
        serializer
            .serialize_bare(&Value::Float(String::from("-2.5")))
            .unwrap_err(),
        UrlError::TopLevel
    );
    assert_eq!(
        serializer.serialize_bare(&Value::Char('a')).unwrap_err(),
        UrlError::TopLevel
    );
    assert_eq!(
        serializer
            .serialize_bare(&Value::Text(String::from("hello?")))
            .unwrap_err(),
        UrlError::TopLevel
    );
    assert_eq!(
        serializer
            .serialize_bare(&Value::Bytes(b"hello?\xc3\x28\x00".to_vec()))
            .unwrap_err(),
        UrlError::TopLevel
    );
    assert!(serializer.serialize_bare(&Value::Absent).is_ok());
    assert_eq!(
        serializer
            .serialize_bare(&Value::Wrapped(Box::new(Value::Bool(true))))
            .unwrap_err(),
        UrlError::TopLevel
    );
    assert!(serializer.serialize_bare(&Value::Unit).is_ok());
    assert_eq!(
        serializer
            .serialize_bare(&Value::Text(String::from("name")))
            .unwrap_err(),
        UrlError::TopLevel
    );
    assert_eq!(
        serializer
            .serialize_bare(&Value::Composite(CompositeKind::Tuple))
            .unwrap_err(),
        UrlError::ValueNotSupported
    );

    let mut serializer = UrlSerializer {
        url: Vec::new(),
        parts: vec![
            Part::Param(Param::Value(b"raw".to_vec())),
            Part::Param(Param::Key(b"id".to_vec())),
        ],
    };

    serializer.serialize_field("id", &Value::I32(1)).unwrap();
    assert_eq!(
        serializer.parts,
        vec![
            Part::Param(Param::Value(b"raw".to_vec())),
            Part::Param(Param::Value(b"1".to_vec())),
        ]
    );

    let mut serializer = UrlSerializer {
        url: Vec::new(),
        parts: vec![
            Part::Param(Param::Value(b"raw".to_vec())),
            Part::Param(Param::Key(b"i".to_vec())),
        ],
    };

    assert_eq!(
        serializer.serialize_field("id", &Value::I32(1)).unwrap_err(),
        UrlError::KeyNotFound(b"id".to_vec())
    );
}

#[test]
fn test_construct_url() {
    let base_url = "https://example.com";
    let endpoint = "/shows/{id}";
    let params = Params::Record(vec![Field::new("id", Value::I32(1))]);
    let query = Params::Record(vec![
        Field::new("page", Value::I32(1)),
        Field::new("limit", Value::Absent),
    ]);

    let url = construct_url(base_url, endpoint, &params, &query).unwrap();
    assert_eq!(url, b"https://example.com/shows/1?page=1".to_vec());
}

#[test]
fn path_substitution_scenario() {
    let params = Params::Record(vec![
        Field::new("id", Value::I32(1)),
        Field::new("season", Value::I32(2)),
    ]);
    let url = substitute("", "/shows/{id}/seasons/{season}", &params).unwrap();
    assert_eq!(url, b"/shows/1/seasons/2".to_vec());
}

#[test]
fn substitution_leaves_no_braces() {
    // The record supplies the placeholders out of template order; the
    // result still has every brace gone.
    let params = Params::Record(vec![
        Field::new("season", Value::Text(String::from("{x}"))),
        Field::new("id", Value::U64(7)),
    ]);
    let url = substitute("https://example.com", "/shows/{id}/seasons/{season}", &params).unwrap();
    assert!(!url.contains(&b'{'));
    assert!(!url.contains(&b'}'));
    assert_eq!(
        url,
        b"https://example.com/shows/7/seasons/%7Bx%7D".to_vec()
    );
}

#[test]
fn adjacent_placeholders_without_literal() {
    let params = Params::Record(vec![
        Field::new("a", Value::U8(1)),
        Field::new("b", Value::U8(2)),
    ]);
    let url = substitute("", "/{a}{b}", &params).unwrap();
    assert_eq!(url, b"/12".to_vec());
}

#[test]
fn empty_placeholder_yields_no_part() {
    let parts = parse_endpoint("/a{}b").unwrap();
    assert_eq!(
        parts,
        vec![Part::Raw(b"/a".to_vec()), Part::Raw(b"b".to_vec())]
    );
}

#[test]
fn repeated_placeholder_fills_each_occurrence() {
    // Each occurrence is filled independently from a field of that name.
    let params = Params::Record(vec![
        Field::new("id", Value::U8(1)),
        Field::new("id", Value::U8(2)),
    ]);
    let url = substitute("", "/{id}/{id}", &params).unwrap();
    assert_eq!(url, b"/1/2".to_vec());
}

#[test]
fn unsupported_field_value_fails_whole_substitution() {
    let params = Params::Record(vec![Field::new(
        "id",
        Value::Composite(CompositeKind::Sequence),
    )]);
    let res = substitute("", "/shows/{id}", &params).unwrap_err();
    assert_eq!(res, UrlError::ValueNotSupported);
}

#[test]
fn bare_sequence_at_top_level() {
    let res = substitute(
        "",
        "/shows",
        &Params::Bare(Value::Composite(CompositeKind::Sequence)),
    )
    .unwrap_err();
    assert_eq!(res, UrlError::TopLevel);

    let res = substitute(
        "",
        "/shows",
        &Params::Bare(Value::Composite(CompositeKind::Mapping)),
    )
    .unwrap_err();
    assert_eq!(res, UrlError::TopLevel);
}

#[test]
fn missing_token_error_message() {
    assert_eq!(
        IntoHttpError::MissingToken.message(),
        b"Missing oauth token".to_vec()
    );
}

#[test]
fn test_type_ser_url() {
    let test = Params::Record(vec![Field::new(
        "tp",
        SearchType { bits: SEARCH_MOVIE }.to_value(),
    )]);
    let url = construct_url("", "/search/{tp}", &test, &Params::Bare(Value::Unit)).unwrap();
    assert_eq!(url, b"/search/movie".to_vec());

    let both = SearchType { bits: SEARCH_MOVIE }.union(SearchType { bits: SEARCH_SHOW });
    let test = Params::Record(vec![Field::new("tp", both.to_value())]);
    let url = construct_url("", "/search/{tp}", &test, &Params::Bare(Value::Unit)).unwrap();
    assert_eq!(url, b"/search/movie,show".to_vec());

    let test = Params::Record(vec![Field::new("tp", SearchType::empty().to_value())]);
    let url = construct_url("", "/search/{tp}", &test, &Params::Bare(Value::Unit)).unwrap();
    assert_eq!(url, b"/search/".to_vec());
}
