//! Request-side types: the call context, endpoint metadata, and the
//! assembly of a full request plan — URL plus headers — from them.

use vstd::prelude::*;
use vstd::string::StringSliceAdditionalSpecFns;

use crate::error::{bytes_of, push_bytes, IntoHttpError, IntoHttpErrorView};
use crate::url::{construct_url, construct_url_spec, Params};

verus! {

/// Authorization requirement for an API request.
#[derive(Debug, Copy, Clone, Eq, PartialEq, Ord, PartialOrd, Hash, Default, Structural)]
pub enum AuthRequirement {
    /// No authorization needed; a token is never sent.
    #[default]
    NoAuth,
    /// Authorization is optional: a token is sent when one is at hand.
    Optional,
    /// Authorization is required: without a token the request fails.
    Required,
}

/// The universal context of an API request: where the API lives, which
/// client calls it, and the OAuth token if one is at hand.
#[derive(Debug, Copy, Clone, PartialEq, Eq, Hash)]
pub struct Context<'a> {
    /// The base URL for the API.
    pub base_url: &'a str,
    /// The client ID for the API.
    pub client_id: &'a str,
    /// The OAuth token, if requesting an authenticated endpoint.
    pub oauth_token: Option<&'a str>,
}

/// The HTTP method of an endpoint.
#[derive(Debug, Copy, Clone, Eq, PartialEq, Hash, Structural)]
pub enum Method {
    Get,
    Post,
    Put,
    Delete,
    Head,
    Options,
    Patch,
}

impl Method {
    /// The method's name on the wire.
    pub fn name(&self) -> (r: &'static str)
        ensures
            r@ == match *self {
                Method::Get => "GET"@,
                Method::Post => "POST"@,
                Method::Put => "PUT"@,
                Method::Delete => "DELETE"@,
                Method::Head => "HEAD"@,
                Method::Options => "OPTIONS"@,
                Method::Patch => "PATCH"@,
            },
    {
        match self {
            Method::Get => "GET",
            Method::Post => "POST",
            Method::Put => "PUT",
            Method::Delete => "DELETE",
            Method::Head => "HEAD",
            Method::Options => "OPTIONS",
            Method::Patch => "PATCH",
        }
    }
}

/// Metadata of one API endpoint: its URL template, HTTP method, and
/// authorization requirement.
#[derive(Debug, Clone, PartialEq, Eq, Hash)]
pub struct Metadata {
    /// The URL endpoint template for the request.
    pub endpoint: &'static str,
    /// The HTTP method for the request.
    pub method: Method,
    /// Authorization requirement for the request.
    pub auth: AuthRequirement,
}

/// The Authorization header value that a request carries: `Bearer {token}`
/// when a token is present and wanted, nothing when none is needed, and a
/// missing-token failure when one is required but absent.
pub open spec fn auth_header_spec(auth: AuthRequirement, token: Option<Seq<u8>>) -> Result<
    Option<Seq<u8>>,
    IntoHttpErrorView,
> {
    match (auth, token) {
        (AuthRequirement::NoAuth, _) => Ok(None),
        (AuthRequirement::Optional, None) => Ok(None),
        (AuthRequirement::Optional, Some(t)) => Ok(Some(("Bearer ").spec_bytes() + t)),
        (AuthRequirement::Required, Some(t)) => Ok(Some(("Bearer ").spec_bytes() + t)),
        (AuthRequirement::Required, None) => Err(IntoHttpErrorView::MissingToken),
    }
}

/// Decides the Authorization header of a request.
pub fn authorization_header(auth: AuthRequirement, oauth_token: Option<&str>) -> (r: Result<
    Option<Vec<u8>>,
    IntoHttpError,
>)
    ensures
        ({
            let token = match oauth_token {
                Some(t) => Some(t.spec_bytes()),
                None => None::<Seq<u8>>,
            };
            match r {
                Ok(Some(h)) => auth_header_spec(auth, token) == Ok::<_, IntoHttpErrorView>(
                    Some(h@),
                ),
                Ok(None) => auth_header_spec(auth, token) == Ok::<_, IntoHttpErrorView>(
                    None::<Seq<u8>>,
                ),
                Err(e) => e == IntoHttpError::MissingToken && auth_header_spec(auth, token)
                    == Err::<Option<Seq<u8>>, _>(IntoHttpErrorView::MissingToken),
            }
        }),
{
    match (auth, oauth_token) {
        (AuthRequirement::NoAuth, _) => Ok(None),
        (AuthRequirement::Optional, None) => Ok(None),
        (AuthRequirement::Optional, Some(t)) | (AuthRequirement::Required, Some(t)) => {
            let mut h = bytes_of("Bearer ".as_bytes());
            push_bytes(&mut h, t.as_bytes());
            Ok(Some(h))
        },
        (AuthRequirement::Required, None) => Err(IntoHttpError::MissingToken),
    }
}

/// A fully decided request, short of the transport: the URL, the method,
/// and every header, in order.
#[derive(Debug, Clone, PartialEq, Eq)]
pub struct RequestPlan {
    pub method: Method,
    pub url: Vec<u8>,
    pub headers: Vec<(Vec<u8>, Vec<u8>)>,
}

/// The header names and values of a plan, as byte sequences.
pub open spec fn header_views(headers: Seq<(Vec<u8>, Vec<u8>)>) -> Seq<(Seq<u8>, Seq<u8>)> {
    headers.map_values(|p: (Vec<u8>, Vec<u8>)| (p.0@, p.1@))
}

/// The headers every request carries, and the Authorization header when
/// one is due.
pub open spec fn plan_headers_spec(client_id: Seq<u8>, auth_value: Option<Seq<u8>>) -> Seq<
    (Seq<u8>, Seq<u8>),
> {
    let fixed = seq![
        (("Content-Type").spec_bytes(), ("application/json").spec_bytes()),
        (("trakt-api-version").spec_bytes(), ("2").spec_bytes()),
        (("trakt-api-key").spec_bytes(), client_id),
    ];
    match auth_value {
        Some(v) => fixed.push((("Authorization").spec_bytes(), v)),
        None => fixed,
    }
}

/// Assembles a request plan from the context, the endpoint metadata, and
/// the path and query parameter records.
///
/// The URL is the substituted endpoint after the base URL, with the query
/// string appended when non-empty; the headers are `Content-Type`,
/// `trakt-api-version`, `trakt-api-key`, and `Authorization` when the
/// endpoint's requirement and the context's token call for one.  Fails
/// exactly when URL construction fails or a required token is missing.
pub fn construct_req(ctx: &Context, md: &Metadata, path: &Params, query: &Params) -> (r: Result<
    RequestPlan,
    IntoHttpError,
>)
    ensures
        ({
            let url_r = construct_url_spec(
                ctx.base_url.spec_bytes(),
                md.endpoint.spec_bytes(),
                path@,
                query@,
            );
            let token = match ctx.oauth_token {
                Some(t) => Some(t.spec_bytes()),
                None => None::<Seq<u8>>,
            };
            let auth_r = auth_header_spec(md.auth, token);
            match r {
                Ok(plan) => {
                    &&& url_r == Ok::<_, IntoHttpErrorView>(plan.url@)
                    &&& auth_r is Ok
                    &&& plan.method == md.method
                    &&& header_views(plan.headers@) == plan_headers_spec(
                        ctx.client_id.spec_bytes(),
                        auth_r->Ok_0,
                    )
                },
                Err(e) => url_r == Err::<Seq<u8>, _>(e@) || (url_r is Ok && auth_r == Err::<
                    Option<Seq<u8>>,
                    _,
                >(e@)),
            }
        }),
{
    let url = construct_url(ctx.base_url, md.endpoint, path, query)?;
    let auth_value = authorization_header(md.auth, ctx.oauth_token)?;
    let mut headers: Vec<(Vec<u8>, Vec<u8>)> = Vec::new();
    headers.push((bytes_of("Content-Type".as_bytes()), bytes_of("application/json".as_bytes())));
    headers.push((bytes_of("trakt-api-version".as_bytes()), bytes_of("2".as_bytes())));
    headers.push((bytes_of("trakt-api-key".as_bytes()), bytes_of(ctx.client_id.as_bytes())));
    match auth_value {
        Some(v) => {
            headers.push((bytes_of("Authorization".as_bytes()), v));
            proof {
                assert(header_views(headers@) =~= plan_headers_spec(
                    ctx.client_id.spec_bytes(),
                    auth_header_spec(
                        md.auth,
                        match ctx.oauth_token {
                            Some(t) => Some(t.spec_bytes()),
                            None => None::<Seq<u8>>,
                        },
                    )->Ok_0,
                ));
            }
        },
        None => {
            proof {
                assert(header_views(headers@) =~= plan_headers_spec(
                    ctx.client_id.spec_bytes(),
                    auth_header_spec(
                        md.auth,
                        match ctx.oauth_token {
                            Some(t) => Some(t.spec_bytes()),
                            None => None::<Seq<u8>>,
                        },
                    )->Ok_0,
                ));
            }
        },
    }
    Ok(RequestPlan { method: md.method, url, headers })
}

} // verus!
