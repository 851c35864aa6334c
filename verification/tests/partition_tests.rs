use trakt_core::partition::{parse_url_params, partition_fields, FieldPartition, PartitionError};
use trakt_core::url::{Field, Params};
use trakt_core::value::Value;

#[test]
fn parse_url_params_in_template_order() {
    let names = parse_url_params("/shows/{id}/seasons/{season}/episodes/{episode}").unwrap();
    assert_eq!(
        names,
        vec![b"id".to_vec(), b"season".to_vec(), b"episode".to_vec()]
    );
    assert_eq!(parse_url_params("/shows").unwrap(), Vec::<Vec<u8>>::new());
    assert!(parse_url_params("/shows/{id").is_err());
}

#[test]
fn partition_preserves_order() {
    // Path fields follow template placeholder order even when the record
    // names them in another order; query fields keep record order.
    let fields = vec![
        String::from("q1"),
        String::from("season"),
        String::from("id"),
        String::from("q2"),
    ];
    let p = partition_fields("/shows/{id}/seasons/{season}", &fields).unwrap();
    assert_eq!(p.path_fields, vec![b"id".to_vec(), b"season".to_vec()]);
    assert_eq!(p.query_fields, vec![String::from("q1"), String::from("q2")]);
}

#[test]
fn partition_missing_singular() {
    let fields = vec![String::from("id")];
    let err = partition_fields("/shows/{id}/{unfilled}", &fields).unwrap_err();
    assert_eq!(
        err,
        PartitionError::MissingPathParams(vec![b"unfilled".to_vec()])
    );
    assert_eq!(err.message(), b"missing path parameter: unfilled".to_vec());
}

#[test]
fn partition_missing_plural_comma_joined() {
    let fields = vec![String::from("c")];
    let err = partition_fields("/{a}/{b}/{c}", &fields).unwrap_err();
    assert_eq!(
        err,
        PartitionError::MissingPathParams(vec![b"a".to_vec(), b"b".to_vec()])
    );
    assert_eq!(err.message(), b"missing path parameters: a, b".to_vec());
}

#[test]
fn partition_invalid_endpoint() {
    let fields = vec![String::from("id")];
    let err = partition_fields("/shows/{{id}", &fields).unwrap_err();
    assert_eq!(err, PartitionError::InvalidEndpoint);
}

#[test]
fn partition_all_query() {
    let fields = vec![String::from("page"), String::from("limit")];
    let p = partition_fields("/shows/trending", &fields).unwrap();
    assert_eq!(p.path_fields, Vec::<Vec<u8>>::new());
    assert_eq!(
        p.query_fields,
        vec![String::from("page"), String::from("limit")]
    );
}

#[test]
fn projection_splits_record() {
    let partition = FieldPartition {
        path_fields: vec![b"id".to_vec()],
        query_fields: vec![String::from("page")],
    };
    let record = vec![
        Field::new("page", Value::U8(3)),
        Field::new("id", Value::U64(42)),
    ];
    let (path_record, query_record) = partition.project(record);
    assert_eq!(path_record.len(), 1);
    assert_eq!(path_record[0].name, "id");
    assert_eq!(path_record[0].value, Value::U64(42));
    assert_eq!(query_record.len(), 1);
    assert_eq!(query_record[0].name, "page");
    assert_eq!(query_record[0].value, Value::U8(3));

    // The partitioned shapes substitute like the original derive's split
    // records would.
    let params = Params::Record(path_record);
    let url = trakt_core::url::substitute("", "/shows/{id}", &params).unwrap();
    assert_eq!(url, b"/shows/42".to_vec());
}

#[test]
fn query_string_forms_pairs() {
    let query = Params::Record(vec![
        Field::new("type", Value::Text(String::from("show,episode"))),
        Field::new("page", Value::U8(1)),
        Field::new("limit", Value::U8(10)),
    ]);
    let q = trakt_core::query::query_string(&query).unwrap();
    assert_eq!(q, b"type=show%2Cepisode&page=1&limit=10".to_vec());
}

#[test]
fn query_string_escapes_space_as_plus() {
    let query = Params::Record(vec![Field::new(
        "query",
        Value::Text(String::from("dark knight")),
    )]);
    let q = trakt_core::query::query_string(&query).unwrap();
    assert_eq!(q, b"query=dark+knight".to_vec());
}

#[test]
fn repeated_placeholder_needs_a_field_per_occurrence() {
    // Each occurrence of a repeated name consumes its own field at
    // partition time; one field leaves the second occurrence missing.
    let fields = vec![String::from("id")];
    let err = partition_fields("/{id}/{id}", &fields).unwrap_err();
    assert_eq!(err, PartitionError::MissingPathParams(vec![b"id".to_vec()]));
}
