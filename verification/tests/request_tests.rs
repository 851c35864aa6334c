use trakt_core::error::IntoHttpError;
use trakt_core::request::{authorization_header, construct_req, AuthRequirement, Context, Metadata, Method};
use trakt_core::smo::{Id, Ids, Period, TwoLetter};
use trakt_core::tags::{Action, CheckinItemType, ReleaseType, Type};
use trakt_core::url::{substitute, Field, Params};
use trakt_core::value::Value;

fn header_value<'a>(plan: &'a trakt_core::request::RequestPlan, name: &str) -> Option<&'a Vec<u8>> {
    plan.headers
        .iter()
        .find(|(n, _)| n.as_slice() == name.as_bytes())
        .map(|(_, v)| v)
}

#[test]
fn test_construct_req() {
    let mut ctx = Context {
        base_url: "https://api.trakt.tv",
        client_id: "client id",
        oauth_token: None,
    };
    let mut md = Metadata {
        endpoint: "/test",
        method: Method::Get,
        auth: AuthRequirement::NoAuth,
    };

    let plan = construct_req(&ctx, &md, &Params::Bare(Value::Unit), &Params::Bare(Value::Unit))
        .unwrap();
    assert_eq!(plan.method, Method::Get);
    assert_eq!(plan.url, b"https://api.trakt.tv/test".to_vec());
    assert_eq!(
        header_value(&plan, "Content-Type").unwrap(),
        &b"application/json".to_vec()
    );
    assert_eq!(
        header_value(&plan, "trakt-api-version").unwrap(),
        &b"2".to_vec()
    );
    assert_eq!(
        header_value(&plan, "trakt-api-key").unwrap(),
        &b"client id".to_vec()
    );
    assert!(header_value(&plan, "Authorization").is_none());

    md.auth = AuthRequirement::Required;
    ctx.oauth_token = Some("token");

    let plan = construct_req(&ctx, &md, &Params::Bare(Value::Unit), &Params::Bare(Value::Unit))
        .unwrap();
    assert_eq!(plan.url, b"https://api.trakt.tv/test".to_vec());
    assert_eq!(
        header_value(&plan, "Authorization").unwrap(),
        &b"Bearer token".to_vec()
    );

    md.auth = AuthRequirement::Required;
    ctx.oauth_token = None;
    let result = construct_req(&ctx, &md, &Params::Bare(Value::Unit), &Params::Bare(Value::Unit))
        .unwrap_err();
    assert!(matches!(result, IntoHttpError::MissingToken));

    md.auth = AuthRequirement::Optional;
    ctx.oauth_token = None;

    let plan = construct_req(&ctx, &md, &Params::Bare(Value::Unit), &Params::Bare(Value::Unit))
        .unwrap();
    assert!(header_value(&plan, "Authorization").is_none());

    md.auth = AuthRequirement::Optional;
    ctx.oauth_token = Some("token");

    let plan = construct_req(&ctx, &md, &Params::Bare(Value::Unit), &Params::Bare(Value::Unit))
        .unwrap();
    assert_eq!(
        header_value(&plan, "Authorization").unwrap(),
        &b"Bearer token".to_vec()
    );
}

#[test]
fn authorization_header_cases() {
    assert_eq!(authorization_header(AuthRequirement::NoAuth, Some("t")).unwrap(), None);
    assert_eq!(authorization_header(AuthRequirement::Optional, None).unwrap(), None);
    assert_eq!(
        authorization_header(AuthRequirement::Optional, Some("t")).unwrap(),
        Some(b"Bearer t".to_vec())
    );
    assert_eq!(
        authorization_header(AuthRequirement::Required, Some("t")).unwrap(),
        Some(b"Bearer t".to_vec())
    );
    assert!(matches!(
        authorization_header(AuthRequirement::Required, None),
        Err(IntoHttpError::MissingToken)
    ));
}

#[test]
fn method_names() {
    assert_eq!(Method::Get.name(), "GET");
    assert_eq!(Method::Post.name(), "POST");
    assert_eq!(Method::Delete.name(), "DELETE");
}

#[test]
fn id_to_value_and_ids() {
    assert_eq!(Id::Trakt(1).to_value(), Value::U64(1));
    assert_eq!(
        Id::Imdb(String::from("tt12345")).to_value(),
        Value::Text(String::from("tt12345"))
    );

    let ids = Ids::from(Id::Trakt(42));
    assert_eq!(ids.trakt, Some(42));
    assert_eq!(ids.slug, None);
    assert_eq!(ids.imdb, None);

    let ids = Ids::from(Id::Slug(String::from("the-dark-knight-2008")));
    assert_eq!(ids.slug, Some(String::from("the-dark-knight-2008")));
    assert_eq!(ids.trakt, None);

    let empty = Ids::default();
    assert_eq!(empty.tvdb, None);
    assert_eq!(empty.tmdb, None);
}

#[test]
fn two_letter_codes() {
    let code = TwoLetter::new("us");
    assert_eq!(code.bytes(), [b'u', b's']);
    let other = TwoLetter::new("de");
    assert_ne!(code, other);
}

#[test]
fn tag_names() {
    assert_eq!(Period::Weekly.tag(), "weekly");
    assert_eq!(Period::default().tag(), "weekly");
    assert_eq!(Type::Movies.tag(), "movies");
    assert_eq!(ReleaseType::TV.tag(), "tv");
    assert_eq!(Action::Scrobble.tag(), "scrobble");
    assert_eq!(CheckinItemType::Episode.tag(), "episode");
}

#[test]
fn tag_as_path_token() {
    let params = Params::Record(vec![Field::new(
        "tp",
        Value::UnitVariant(Type::Movies.tag().to_string()),
    )]);
    let url = substitute("", "/certifications/{tp}", &params).unwrap();
    assert_eq!(url, b"/certifications/movies".to_vec());
}
