//! Endpoint templates and URL-template substitution.
//!
//! An endpoint template such as `/shows/{id}/seasons/{season}` is parsed by
//! a single left-to-right scan into an ordered list of parts: literal text
//! and named placeholders.  A request record is then walked field by field;
//! each field fills the first still-open placeholder of the same name with
//! the field's encoded token.  Finalizing concatenates the parts after the
//! base URL; a placeholder still open at that point is an error.

use vstd::prelude::*;
use vstd::string::StringSliceAdditionalSpecFns;
use vstd::utf8::encode_utf8;

use crate::error::{bytes_of, push_bytes, IntoHttpError, IntoHttpErrorView, UrlError, UrlErrorView};
use crate::query::{query_string, query_string_spec};
use crate::value::{encode_spec, encode_value, CompositeKind, Value};

verus! {

/// A parameter slot of a template: still open under its key, or already
/// filled with an encoded token.
#[derive(Debug, Clone, PartialEq, Eq)]
pub enum Param {
    /// The key of the parameter.
    Key(Vec<u8>),
    /// The encoded value of the parameter.
    Value(Vec<u8>),
}

/// One part of a parsed endpoint template.
#[derive(Debug, Clone, PartialEq, Eq)]
pub enum Part {
    /// Literal text, appended to the URL unchanged.
    Raw(Vec<u8>),
    /// A parameter slot.
    Param(Param),
}

/// The mathematical shape of a [`Part`].
pub enum PartView {
    Raw(Seq<u8>),
    Key(Seq<u8>),
    Filled(Seq<u8>),
}

impl View for Part {
    type V = PartView;

    open spec fn view(&self) -> PartView {
        match self {
            Part::Raw(s) => PartView::Raw(s@),
            Part::Param(Param::Key(k)) => PartView::Key(k@),
            Part::Param(Param::Value(v)) => PartView::Filled(v@),
        }
    }
}

/// The shapes of a sequence of parts.
pub open spec fn views_of(parts: Seq<Part>) -> Seq<PartView> {
    parts.map_values(|p: Part| p@)
}

/// One step short of [`parse_spec`]: scanning from position `i`, where
/// `start` marks the beginning of the current literal or placeholder and
/// `in_param` says whether a `{` is open, with `acc` the parts already
/// produced.
pub open spec fn scan_endpoint(
    s: Seq<u8>,
    i: int,
    start: int,
    in_param: bool,
    acc: Seq<PartView>,
) -> Option<Seq<PartView>>
    decreases s.len() - i,
{
    if i < 0 || i >= s.len() {
        if in_param {
            None
        } else if start != s.len() {
            Some(acc.push(PartView::Raw(s.subrange(start, s.len() as int))))
        } else {
            Some(acc)
        }
    } else if s[i] == 0x7b {
        if in_param {
            None
        } else {
            let acc2 = if start != i {
                acc.push(PartView::Raw(s.subrange(start, i)))
            } else {
                acc
            };
            scan_endpoint(s, i + 1, i + 1, true, acc2)
        }
    } else if s[i] == 0x7d {
        if !in_param {
            None
        } else {
            let acc2 = if start != i {
                acc.push(PartView::Key(s.subrange(start, i)))
            } else {
                acc
            };
            scan_endpoint(s, i + 1, i + 1, false, acc2)
        }
    } else {
        scan_endpoint(s, i + 1, start, in_param, acc)
    }
}

/// The parts of an endpoint template, or `None` when its braces are
/// unbalanced, nested, or unterminated.
pub open spec fn parse_spec(s: Seq<u8>) -> Option<Seq<PartView>> {
    scan_endpoint(s, 0, 0, false, seq![])
}

/// Parses an endpoint template into parts.
///
/// Example: `/shows/{id}/seasons/{season}` parses into the literal
/// `/shows/`, the placeholder `id`, the literal `/seasons/`, and the
/// placeholder `season`.  An empty placeholder `{}` yields no part.
/// Fails with `InvalidEndpoint` exactly on unbalanced, nested, or
/// unterminated braces.
pub fn parse_endpoint(s: &str) -> (r: Result<Vec<Part>, UrlError>)
    ensures
        match r {
            Ok(parts) => parse_spec(s.spec_bytes()) == Some(views_of(parts@)),
            Err(e) => e == UrlError::InvalidEndpoint && parse_spec(s.spec_bytes()) is None,
        },
{
    let bytes = s.as_bytes();
    let ghost t = bytes@;
    let mut parts: Vec<Part> = Vec::new();
    let mut start: usize = 0;
    let mut in_param = false;
    let mut i: usize = 0;
    proof {
        assert(views_of(parts@) =~= Seq::<PartView>::empty());
    }
    while i < bytes.len()
        invariant
            bytes@ == t,
            i <= t.len(),
            start <= i,
            scan_endpoint(t, i as int, start as int, in_param, views_of(parts@)) == parse_spec(t),
        decreases t.len() - i,
    {
        let b = bytes[i];
        if b == 0x7b {
            if in_param {
                return Err(UrlError::InvalidEndpoint);
            }
            if start != i {
                let lit = bytes_of(&bytes[start..i]);
                let ghost before = parts@;
                parts.push(Part::Raw(lit));
                proof {
                    assert(views_of(parts@) =~= views_of(before).push(
                        PartView::Raw(t.subrange(start as int, i as int)),
                    ));
                }
            }
            start = i + 1;
            in_param = true;
        } else if b == 0x7d {
            if !in_param {
                return Err(UrlError::InvalidEndpoint);
            }
            if start != i {
                let key = bytes_of(&bytes[start..i]);
                let ghost before = parts@;
                parts.push(Part::Param(Param::Key(key)));
                proof {
                    assert(views_of(parts@) =~= views_of(before).push(
                        PartView::Key(t.subrange(start as int, i as int)),
                    ));
                }
            }
            start = i + 1;
            in_param = false;
        }
        i = i + 1;
    }
    if in_param {
        return Err(UrlError::InvalidEndpoint);
    }
    if start != bytes.len() {
        let lit = bytes_of(&bytes[start..bytes.len()]);
        let ghost before = parts@;
        parts.push(Part::Raw(lit));
        proof {
            assert(views_of(parts@) =~= views_of(before).push(
                PartView::Raw(t.subrange(start as int, t.len() as int)),
            ));
        }
    }
    Ok(parts)
}

/// The index of the first still-open placeholder named `key`.
pub open spec fn find_open(parts: Seq<PartView>, key: Seq<u8>) -> Option<int>
    decreases parts.len(),
{
    if parts.len() == 0 {
        None
    } else if parts[0] == PartView::Key(key) {
        Some(0)
    } else {
        match find_open(parts.drop_first(), key) {
            Some(j) => Some(j + 1),
            None => None,
        }
    }
}

/// What [`find_open`] returns: the first index holding an open placeholder
/// named `key`, or `None` when there is no such index.
pub proof fn lemma_find_open(parts: Seq<PartView>, key: Seq<u8>)
    ensures
        match find_open(parts, key) {
            Some(j) => 0 <= j < parts.len() && parts[j] == PartView::Key(key) && forall|l: int|
                0 <= l < j ==> parts[l] != PartView::Key(key),
            None => forall|l: int| 0 <= l < parts.len() ==> parts[l] != PartView::Key(key),
        },
    decreases parts.len(),
{
    if parts.len() != 0 {
        lemma_find_open(parts.drop_first(), key);
        if parts[0] != PartView::Key(key) {
            assert(forall|l: int|
                1 <= l < parts.len() ==> parts[l] == parts.drop_first()[l - 1]);
        }
    }
}

/// A named field of a request record.
#[derive(Debug)]
pub struct Field {
    pub name: String,
    pub value: Value,
}

/// The mathematical shape of a [`Field`]: the UTF-8 bytes of its name and
/// its value.
pub struct FieldView {
    pub name: Seq<u8>,
    pub value: Value,
}

impl View for Field {
    type V = FieldView;

    open spec fn view(&self) -> FieldView {
        FieldView { name: encode_utf8(self.name@), value: self.value }
    }
}

impl Field {
    /// A named field holding a value.
    pub fn new(name: &str, value: Value) -> (f: Field)
        ensures
            f@.name == name.spec_bytes(),
            f@.value == value,
    {
        Field { name: name.to_owned(), value }
    }
}

/// What is substituted at the top level: a record of named fields, or a
/// bare value, which only a few kinds survive.
#[derive(Debug)]
pub enum Params {
    Record(Vec<Field>),
    Bare(Value),
}

/// The mathematical shape of [`Params`].
pub enum ParamsView {
    Record(Seq<FieldView>),
    Bare(Value),
}

impl View for Params {
    type V = ParamsView;

    open spec fn view(&self) -> ParamsView {
        match self {
            Params::Record(fields) => ParamsView::Record(fields@.map_values(|f: Field| f@)),
            Params::Bare(v) => ParamsView::Bare(*v),
        }
    }
}

/// The failure that a bare (non-record) top-level value produces, if any.
/// Absent and unit values are accepted and fill nothing; a wrapper is
/// unwrapped; a bare sequence or map is a `TopLevel` misuse, as is a bare
/// scalar; the other composite kinds are unsupported values.
pub open spec fn bare_outcome(v: Value) -> Option<UrlErrorView>
    decreases v,
{
    match v {
        Value::Absent => None,
        Value::Unit => None,
        Value::Wrapped(inner) => bare_outcome(*inner),
        Value::Composite(k) => if k == CompositeKind::Sequence || k == CompositeKind::Mapping {
            Some(UrlErrorView::TopLevel)
        } else {
            Some(UrlErrorView::ValueNotSupported)
        },
        _ => Some(UrlErrorView::TopLevel),
    }
}

/// Fills placeholders with the record's fields, one field at a time: each
/// field encodes into the first still-open placeholder of its name; a field
/// without one is `KeyNotFound`; a composite field value is unsupported.
pub open spec fn fill_record(parts: Seq<PartView>, fields: Seq<FieldView>) -> Result<
    Seq<PartView>,
    UrlErrorView,
>
    decreases fields.len(),
{
    if fields.len() == 0 {
        Ok(parts)
    } else {
        let f = fields[0];
        match find_open(parts, f.name) {
            None => Err(UrlErrorView::KeyNotFound(f.name)),
            Some(j) => match encode_spec(f.value) {
                None => Err(UrlErrorView::ValueNotSupported),
                Some(token) => fill_record(
                    parts.update(j, PartView::Filled(token)),
                    fields.drop_first(),
                ),
            },
        }
    }
}

/// What substituting `params` into parsed parts leaves behind.
pub open spec fn apply_params(parts: Seq<PartView>, params: ParamsView) -> Result<
    Seq<PartView>,
    UrlErrorView,
> {
    match params {
        ParamsView::Record(fields) => fill_record(parts, fields),
        ParamsView::Bare(v) => match bare_outcome(v) {
            None => Ok(parts),
            Some(e) => Err(e),
        },
    }
}

/// Concatenates the parts after `url`, in order; the first still-open
/// placeholder fails the whole finalization.
pub open spec fn end_spec(url: Seq<u8>, parts: Seq<PartView>) -> Result<Seq<u8>, UrlErrorView>
    decreases parts.len(),
{
    if parts.len() == 0 {
        Ok(url)
    } else {
        match parts[0] {
            PartView::Raw(s) => end_spec(url + s, parts.drop_first()),
            PartView::Filled(t) => end_spec(url + t, parts.drop_first()),
            PartView::Key(k) => Err(UrlErrorView::UnfilledField(k)),
        }
    }
}

/// The path half of URL construction: parse the endpoint, substitute the
/// params, concatenate after the base URL.
pub open spec fn build_path_spec(base: Seq<u8>, endpoint: Seq<u8>, params: ParamsView) -> Result<
    Seq<u8>,
    UrlErrorView,
> {
    match parse_spec(endpoint) {
        None => Err(UrlErrorView::InvalidEndpoint),
        Some(parts) => match apply_params(parts, params) {
            Err(e) => Err(e),
            Ok(filled) => end_spec(base, filled),
        },
    }
}

/// A URL being built: the base text and the parts of the endpoint, some of
/// them already filled.
#[derive(Debug)]
pub struct UrlSerializer {
    /// The URL being built.
    pub url: Vec<u8>,
    /// The parts of the URL endpoint.
    pub parts: Vec<Part>,
}

impl UrlSerializer {
    /// Starts substitution of an endpoint template after a base URL.
    pub fn begin(base_url: &str, endpoint: &str) -> (r: Result<UrlSerializer, UrlError>)
        ensures
            match r {
                Ok(s) => parse_spec(endpoint.spec_bytes()) == Some(views_of(s.parts@)) && s.url@
                    == base_url.spec_bytes(),
                Err(e) => e == UrlError::InvalidEndpoint && parse_spec(endpoint.spec_bytes())
                    is None,
            },
    {
        let parts = parse_endpoint(endpoint)?;
        Ok(UrlSerializer { url: bytes_of(base_url.as_bytes()), parts })
    }

    /// Fills the first still-open placeholder named `key` with the encoded
    /// `value`.  A missing placeholder is `KeyNotFound`; a composite value
    /// is unsupported; either way the parts are left unchanged.
    #[verifier::loop_isolation(true)]
    pub fn serialize_field(&mut self, key: &str, value: &Value) -> (r: Result<(), UrlError>)
        ensures
            final(self).url@ == old(self).url@,
            match r {
                Ok(()) => {
                    &&& find_open(views_of(old(self).parts@), key.spec_bytes()) is Some
                    &&& encode_spec(*value) is Some
                    &&& views_of(final(self).parts@) == views_of(old(self).parts@).update(
                        find_open(views_of(old(self).parts@), key.spec_bytes()).unwrap(),
                        PartView::Filled(encode_spec(*value).unwrap()),
                    )
                },
                Err(e) => final(self).parts@ == old(self).parts@ && match e@ {
                    UrlErrorView::KeyNotFound(k) => k == key.spec_bytes() && find_open(
                        views_of(old(self).parts@),
                        key.spec_bytes(),
                    ) is None,
                    UrlErrorView::ValueNotSupported => find_open(
                        views_of(old(self).parts@),
                        key.spec_bytes(),
                    ) is Some && encode_spec(*value) is None,
                    _ => false,
                },
            },
    {
        let key_bytes = key.as_bytes();
        let ghost pv = views_of(self.parts@);
        let mut idx: usize = 0;
        let mut found: Option<usize> = None;
        proof {
            lemma_find_open(pv, key.spec_bytes());
        }
        while idx < self.parts.len()
            invariant_except_break
                found is None,
                forall|l: int| 0 <= l < idx ==> pv[l] != PartView::Key(key.spec_bytes()),
            invariant
                views_of(self.parts@) == pv,
                key_bytes@ == key.spec_bytes(),
                idx <= pv.len(),
                pv.len() == self.parts@.len(),
                match find_open(pv, key.spec_bytes()) {
                    Some(j) => 0 <= j < pv.len() && pv[j] == PartView::Key(key.spec_bytes())
                        && forall|l: int| 0 <= l < j ==> pv[l] != PartView::Key(key.spec_bytes()),
                    None => forall|l: int|
                        0 <= l < pv.len() ==> pv[l] != PartView::Key(key.spec_bytes()),
                },
            ensures
                match found {
                    Some(j) => find_open(pv, key.spec_bytes()) == Some(j as int),
                    None => find_open(pv, key.spec_bytes()) is None,
                },
            decreases pv.len() - idx,
        {
            let is_match = match &self.parts[idx] {
                Part::Param(Param::Key(k)) => bytes_eq(k.as_slice(), key_bytes),
                _ => false,
            };
            if is_match {
                found = Some(idx);
                proof {
                    assert(pv[idx as int] == PartView::Key(key.spec_bytes()));
                }
                break ;
            }
            proof {
                assert(pv[idx as int] != PartView::Key(key.spec_bytes()));
            }
            idx = idx + 1;
        }
        let j = match found {
            Some(j) => j,
            None => {
                return Err(UrlError::KeyNotFound(bytes_of(key_bytes)));
            },
        };
        let token = match encode_value(value) {
            Ok(token) => token,
            Err(e) => {
                return Err(e);
            },
        };
        let ghost before = self.parts@;
        self.parts[j] = Part::Param(Param::Value(token));
        proof {
            assert(views_of(self.parts@) =~= views_of(before).update(
                j as int,
                PartView::Filled(encode_spec(*value).unwrap()),
            ));
        }
        Ok(())
    }

    /// Substitutes a bare (non-record) top-level value: absent and unit
    /// values fill nothing, a wrapper is unwrapped, everything else is an
    /// error.
    pub fn serialize_bare(&mut self, value: &Value) -> (r: Result<(), UrlError>)
        ensures
            final(self).url@ == old(self).url@,
            final(self).parts@ == old(self).parts@,
            match r {
                Ok(()) => bare_outcome(*value) is None,
                Err(e) => bare_outcome(*value) == Some(e@),
            },
        decreases *value,
    {
        match value {
            Value::Absent => Ok(()),
            Value::Unit => Ok(()),
            Value::Wrapped(inner) => self.serialize_bare(inner),
            Value::Composite(k) => match k {
                CompositeKind::Sequence | CompositeKind::Mapping => Err(UrlError::TopLevel),
                _ => Err(UrlError::ValueNotSupported),
            },
            _ => Err(UrlError::TopLevel),
        }
    }

    /// Substitutes a whole top-level params value.
    pub fn serialize_params(&mut self, params: &Params) -> (r: Result<(), UrlError>)
        ensures
            final(self).url@ == old(self).url@,
            match r {
                Ok(()) => apply_params(views_of(old(self).parts@), params@) == Ok::<
                    _,
                    UrlErrorView,
                >(views_of(final(self).parts@)),
                Err(e) => apply_params(views_of(old(self).parts@), params@) == Err::<
                    Seq<PartView>,
                    _,
                >(e@),
            },
    {
        match params {
            Params::Bare(v) => {
                let r = self.serialize_bare(v);
                match r {
                    Ok(()) => Ok(()),
                    Err(e) => Err(e),
                }
            },
            Params::Record(fields) => {
                let ghost fv = fields@.map_values(|f: Field| f@);
                let ghost parts0 = views_of(self.parts@);
                let mut i: usize = 0;
                proof {
                    assert(fv.skip(0) =~= fv);
                }
                while i < fields.len()
                    invariant
                        self.url@ == old(self).url@,
                        i <= fields@.len(),
                        fv == fields@.map_values(|f: Field| f@),
                        fv.len() == fields@.len(),
                        fill_record(parts0, fv) == fill_record(
                            views_of(self.parts@),
                            fv.skip(i as int),
                        ),
                    decreases fields@.len() - i,
                {
                    let field = &fields[i];
                    let ghost parts_before = views_of(self.parts@);
                    let ghost rest = fv.skip(i as int);
                    proof {
                        assert(rest[0] == fv[i as int]);
                        assert(fv[i as int] == fields@[i as int]@);
                        assert(rest.drop_first() =~= fv.skip(i + 1));
                    }
                    let r = self.serialize_field(field.name.as_str(), &field.value);
                    match r {
                        Ok(()) => {
                            proof {
                                assert(fill_record(parts_before, rest) == fill_record(
                                    views_of(self.parts@),
                                    fv.skip(i + 1),
                                ));
                            }
                        },
                        Err(e) => {
                            proof {
                                assert(fill_record(parts_before, rest) == Err::<
                                    Seq<PartView>,
                                    UrlErrorView,
                                >(e@));
                            }
                            return Err(e);
                        },
                    }
                    i = i + 1;
                }
                proof {
                    assert(fv.skip(fv.len() as int) =~= Seq::<FieldView>::empty());
                }
                Ok(())
            },
        }
    }

    /// Finalizes the URL: concatenates the parts in order after the base.
    /// The first placeholder still open fails with `UnfilledField`.
    pub fn end(self) -> (r: Result<Vec<u8>, UrlError>)
        ensures
            match r {
                Ok(u) => end_spec(self.url@, views_of(self.parts@)) == Ok::<_, UrlErrorView>(u@),
                Err(e) => end_spec(self.url@, views_of(self.parts@)) == Err::<Seq<u8>, _>(e@),
            },
    {
        let ghost pv = views_of(self.parts@);
        let ghost base = self.url@;
        let mut url = self.url;
        let parts = self.parts;
        let mut i: usize = 0;
        proof {
            assert(pv.skip(0) =~= pv);
        }
        while i < parts.len()
            invariant
                i <= pv.len(),
                pv.len() == parts@.len(),
                pv == views_of(parts@),
                end_spec(base, pv) == end_spec(url@, pv.skip(i as int)),
            decreases pv.len() - i,
        {
            let ghost rest = pv.skip(i as int);
            let ghost url_before = url@;
            proof {
                assert(rest[0] == pv[i as int]);
                assert(pv[i as int] == parts@[i as int]@);
                assert(rest.drop_first() =~= pv.skip(i + 1));
            }
            match &parts[i] {
                Part::Raw(s) => {
                    push_bytes(&mut url, s.as_slice());
                    proof {
                        assert(end_spec(url_before, rest) == end_spec(url@, pv.skip(i + 1)));
                    }
                },
                Part::Param(Param::Key(k)) => {
                    proof {
                        assert(end_spec(url_before, rest) == Err::<Seq<u8>, UrlErrorView>(
                            UrlErrorView::UnfilledField(k@),
                        ));
                    }
                    return Err(UrlError::UnfilledField(bytes_of(k.as_slice())));
                },
                Part::Param(Param::Value(v)) => {
                    push_bytes(&mut url, v.as_slice());
                    proof {
                        assert(end_spec(url_before, rest) == end_spec(url@, pv.skip(i + 1)));
                    }
                },
            }
            i = i + 1;
        }
        proof {
            assert(pv.skip(pv.len() as int) =~= Seq::<PartView>::empty());
        }
        Ok(url)
    }
}

/// Whether two byte slices hold the same bytes.
pub fn bytes_eq(a: &[u8], b: &[u8]) -> (r: bool)
    ensures
        r == (a@ == b@),
{
    if a.len() != b.len() {
        proof {
            assert(a@.len() != b@.len());
        }
        return false;
    }
    let mut i: usize = 0;
    while i < a.len()
        invariant
            i <= a@.len(),
            a@.len() == b@.len(),
            forall|l: int| 0 <= l < i ==> a@[l] == b@[l],
        decreases a@.len() - i,
    {
        if a[i] != b[i] {
            return false;
        }
        i = i + 1;
    }
    proof {
        assert(a@ =~= b@);
    }
    true
}

/// Substitutes a params value into an endpoint template after a base URL,
/// yielding the path half of the final URL.
pub fn substitute(base_url: &str, endpoint: &str, params: &Params) -> (r: Result<Vec<u8>, UrlError>)
    ensures
        match r {
            Ok(u) => build_path_spec(base_url.spec_bytes(), endpoint.spec_bytes(), params@) == Ok::<
                _,
                UrlErrorView,
            >(u@),
            Err(e) => build_path_spec(base_url.spec_bytes(), endpoint.spec_bytes(), params@)
                == Err::<Seq<u8>, _>(e@),
        },
{
    let mut serializer = UrlSerializer::begin(base_url, endpoint)?;
    serializer.serialize_params(params)?;
    serializer.end()
}

/// Constructs a complete URL from a base URL, an endpoint, path parameters
/// and query parameters.
pub open spec fn construct_url_spec(
    base: Seq<u8>,
    endpoint: Seq<u8>,
    params: ParamsView,
    query: ParamsView,
) -> Result<Seq<u8>, IntoHttpErrorView> {
    match build_path_spec(base, endpoint, params) {
        Err(e) => Err(IntoHttpErrorView::UrlParams(e)),
        Ok(path) => match query_string_spec(query) {
            Err(e) => Err(IntoHttpErrorView::QueryParams(e)),
            Ok(q) => Ok(
                if q.len() == 0 {
                    path
                } else {
                    path + seq![0x3fu8] + q
                },
            ),
        },
    }
}

/// Constructs a complete URL from a base URL, an endpoint, and parameters.
///
/// - The `base_url` is the base URL of the API.
/// - The `endpoint` is the path of the specific endpoint with parameters
///   enclosed in curly braces: `/shows/{id}/seasons/{season}`.
/// - The `params` record is substituted into the placeholders of the
///   endpoint.
/// - The `query` record is form-encoded into the query string, which is
///   appended after `?` only when it is non-empty.
pub fn construct_url(base_url: &str, endpoint: &str, params: &Params, query: &Params) -> (r: Result<
    Vec<u8>,
    IntoHttpError,
>)
    ensures
        match r {
            Ok(u) => construct_url_spec(
                base_url.spec_bytes(),
                endpoint.spec_bytes(),
                params@,
                query@,
            ) == Ok::<_, IntoHttpErrorView>(u@),
            Err(e) => construct_url_spec(
                base_url.spec_bytes(),
                endpoint.spec_bytes(),
                params@,
                query@,
            ) == Err::<Seq<u8>, _>(e@),
        },
{
    let mut url = match substitute(base_url, endpoint, params) {
        Ok(u) => u,
        Err(e) => {
            return Err(IntoHttpError::UrlParams(e));
        },
    };
    let q = match query_string(query) {
        Ok(q) => q,
        Err(e) => {
            return Err(IntoHttpError::QueryParams(e));
        },
    };
    let ghost path = url@;
    if q.len() > 0 {
        url.push(0x3f);
        push_bytes(&mut url, q.as_slice());
        proof {
            assert(url@ =~= path + seq![0x3fu8] + q@);
        }
    }
    Ok(url)
}

} // verus!
