//! Build-time partitioning of record fields into path and query parameters.
//!
//! Given an endpoint template and the full list of a record shape's field
//! names, the partitioner computes which fields fill placeholders (the path
//! fields) and which belong to the query string (the query fields).  Each
//! field consumes the first remaining placeholder of its name; placeholders
//! left over afterwards are an error, reported as
//! `missing path parameter(s): a, b`.  This runs once per request shape,
//! not once per request instance.

use vstd::prelude::*;
use vstd::string::StringSliceAdditionalSpecFns;
use vstd::string::StrSliceExecFns;
use vstd::utf8::encode_utf8;

use crate::error::{bytes_of, push_bytes, UrlError};
use crate::url::{bytes_eq, parse_endpoint, parse_spec, Field, FieldView, Part, PartView, Param, views_of};

verus! {

/// The placeholder names of parsed parts, in template order.
pub open spec fn placeholder_names(parts: Seq<PartView>) -> Seq<Seq<u8>>
    decreases parts.len(),
{
    if parts.len() == 0 {
        seq![]
    } else {
        let rest = placeholder_names(parts.drop_first());
        match parts[0] {
            PartView::Key(k) => seq![k] + rest,
            _ => rest,
        }
    }
}

/// Splitting the first part off splits its contribution off.
pub proof fn lemma_placeholder_names_push(parts: Seq<PartView>, p: PartView)
    ensures
        placeholder_names(parts.push(p)) == placeholder_names(parts) + (match p {
            PartView::Key(k) => seq![k],
            _ => Seq::<Seq<u8>>::empty(),
        }),
    decreases parts.len(),
{
    if parts.len() == 0 {
        assert(placeholder_names(Seq::<PartView>::empty()) =~= Seq::<Seq<u8>>::empty());
        assert(parts.push(p).drop_first() =~= Seq::<PartView>::empty());
        assert(parts.push(p)[0] == p);
        match p {
            PartView::Key(k) => {
                assert(placeholder_names(parts.push(p)) =~= seq![k]);
                assert(placeholder_names(parts) + seq![k] =~= seq![k]);
            },
            _ => {
                assert(placeholder_names(parts.push(p)) =~= Seq::<Seq<u8>>::empty());
                assert(placeholder_names(parts) + Seq::<Seq<u8>>::empty() =~= Seq::<
                    Seq<u8>,
                >::empty());
            },
        }
    } else {
        assert(parts.push(p).drop_first() =~= parts.drop_first().push(p));
        assert(parts.push(p)[0] == parts[0]);
        lemma_placeholder_names_push(parts.drop_first(), p);
        match parts[0] {
            PartView::Key(k) => {
                assert(placeholder_names(parts.push(p)) =~= placeholder_names(parts) + (
                match p {
                    PartView::Key(k2) => seq![k2],
                    _ => Seq::<Seq<u8>>::empty(),
                }));
            },
            _ => {
                assert(placeholder_names(parts.push(p)) =~= placeholder_names(parts) + (
                match p {
                    PartView::Key(k2) => seq![k2],
                    _ => Seq::<Seq<u8>>::empty(),
                }));
            },
        }
    }
}

/// The names of a list of byte vectors.
pub open spec fn names_of(names: Seq<Vec<u8>>) -> Seq<Seq<u8>> {
    names.map_values(|v: Vec<u8>| v@)
}

/// Extracts the placeholder names of an endpoint template, left to right.
///
/// Example: `/shows/{id}/seasons/{season}` yields `id`, `season`.
pub fn parse_url_params(endpoint: &str) -> (r: Result<Vec<Vec<u8>>, UrlError>)
    ensures
        match r {
            Ok(names) => parse_spec(endpoint.spec_bytes()) is Some && names_of(names@)
                == placeholder_names(parse_spec(endpoint.spec_bytes()).unwrap()),
            Err(e) => e == UrlError::InvalidEndpoint && parse_spec(endpoint.spec_bytes()) is None,
        },
{
    let parts = parse_endpoint(endpoint)?;
    let ghost pv = views_of(parts@);
    let mut names: Vec<Vec<u8>> = Vec::new();
    let mut i: usize = 0;
    proof {
        assert(pv.subrange(0, 0) =~= Seq::<PartView>::empty());
        assert(names_of(names@) =~= placeholder_names(pv.subrange(0, 0)));
    }
    while i < parts.len()
        invariant
            i <= pv.len(),
            pv.len() == parts@.len(),
            names_of(names@) == placeholder_names(pv.subrange(0, i as int)),
        decreases pv.len() - i,
    {
        let ghost prefix = pv.subrange(0, i as int);
        proof {
            assert(pv[i as int] == parts@[i as int]@);
            lemma_placeholder_names_push(prefix, pv[i as int]);
            assert(pv.subrange(0, i + 1) =~= prefix.push(pv[i as int]));
        }
        match &parts[i] {
            Part::Param(Param::Key(k)) => {
                let ghost before = names@;
                names.push(bytes_of(k.as_slice()));
                proof {
                    assert(names_of(names@) =~= names_of(before).push(k@));
                    assert(placeholder_names(pv.subrange(0, i + 1)) =~= placeholder_names(prefix)
                        + seq![k@]);
                    assert(names_of(names@) =~= placeholder_names(pv.subrange(0, i + 1)));
                }
            },
            _ => {
                proof {
                    assert(placeholder_names(pv.subrange(0, i + 1)) =~= placeholder_names(prefix));
                }
            },
        }
        i = i + 1;
    }
    proof {
        assert(pv.subrange(0, pv.len() as int) =~= pv);
    }
    Ok(names)
}

/// The index of the first name equal to `x`.
pub open spec fn first_name_index(names: Seq<Seq<u8>>, x: Seq<u8>) -> Option<int>
    decreases names.len(),
{
    if names.len() == 0 {
        None
    } else if names[0] == x {
        Some(0)
    } else {
        match first_name_index(names.drop_first(), x) {
            Some(j) => Some(j + 1),
            None => None,
        }
    }
}

/// What [`first_name_index`] returns: the first index holding `x`, or
/// `None` when no index holds it.
pub proof fn lemma_first_name_index(names: Seq<Seq<u8>>, x: Seq<u8>)
    ensures
        match first_name_index(names, x) {
            Some(j) => 0 <= j < names.len() && names[j] == x && forall|l: int|
                0 <= l < j ==> names[l] != x,
            None => forall|l: int| 0 <= l < names.len() ==> names[l] != x,
        },
    decreases names.len(),
{
    if names.len() != 0 {
        lemma_first_name_index(names.drop_first(), x);
        if names[0] != x {
            assert(forall|l: int| 1 <= l < names.len() ==> names[l] == names.drop_first()[l - 1]);
        }
    }
}

/// Walks the record's field names in order against the remaining
/// placeholder names: a field with a remaining placeholder of its name
/// consumes that placeholder; any other field is a query field.  Yields the
/// placeholders left over and the query field names, both in order.
pub open spec fn partition_rec(names: Seq<Seq<u8>>, fields: Seq<Seq<u8>>) -> (Seq<Seq<u8>>, Seq<
    Seq<u8>,
>)
    decreases fields.len(),
{
    if fields.len() == 0 {
        (names, seq![])
    } else {
        let f = fields[0];
        match first_name_index(names, f) {
            Some(j) => partition_rec(names.remove(j), fields.drop_first()),
            None => {
                let r = partition_rec(names, fields.drop_first());
                (r.0, seq![f] + r.1)
            },
        }
    }
}

/// The path/query split of one request shape.
///
/// `path_fields` holds the placeholder names in template order;
/// `query_fields` holds the other field names in their original record
/// order.
#[derive(Debug, Clone, PartialEq, Eq)]
pub struct FieldPartition {
    pub path_fields: Vec<Vec<u8>>,
    pub query_fields: Vec<String>,
}

/// Placeholders that no field of the record shape fills.
#[derive(Debug, Clone, PartialEq, Eq)]
pub enum PartitionError {
    MissingPathParams(Vec<Vec<u8>>),
    /// The endpoint template itself is malformed.
    InvalidEndpoint,
}

/// The names joined by `, `, after the first.
pub open spec fn tail_joined(names: Seq<Seq<u8>>) -> Seq<u8>
    decreases names.len(),
{
    if names.len() == 0 {
        Seq::empty()
    } else {
        (", ").spec_bytes() + names[0] + tail_joined(names.drop_first())
    }
}

/// The names joined by `, `.
pub open spec fn joined_names(names: Seq<Seq<u8>>) -> Seq<u8> {
    if names.len() == 0 {
        Seq::empty()
    } else {
        names[0] + tail_joined(names.drop_first())
    }
}

/// Appending one name appends `, ` and the name.
pub proof fn lemma_tail_joined_push(names: Seq<Seq<u8>>, x: Seq<u8>)
    ensures
        tail_joined(names.push(x)) == tail_joined(names) + (", ").spec_bytes() + x,
    decreases names.len(),
{
    if names.len() == 0 {
        assert(tail_joined(Seq::<Seq<u8>>::empty()) =~= Seq::<u8>::empty());
        assert(names.push(x).drop_first() =~= Seq::<Seq<u8>>::empty());
        assert(names.push(x)[0] == x);
        assert(tail_joined(names.push(x)) =~= (", ").spec_bytes() + x);
        assert(tail_joined(names) + (", ").spec_bytes() + x =~= (", ").spec_bytes() + x);
    } else {
        assert(names.push(x).drop_first() =~= names.drop_first().push(x));
        assert(names.push(x)[0] == names[0]);
        lemma_tail_joined_push(names.drop_first(), x);
        assert(tail_joined(names.push(x)) =~= tail_joined(names) + (", ").spec_bytes() + x);
    }
}

/// The exact message of a [`PartitionError`]: singular or plural according
/// to the count, the names comma-joined in template order.
pub open spec fn partition_error_message(e: PartitionError) -> Seq<u8> {
    match e {
        PartitionError::MissingPathParams(names) => ("missing path parameter").spec_bytes() + (
        if names@.len() == 1 {
            Seq::<u8>::empty()
        } else {
            ("s").spec_bytes()
        }) + (": ").spec_bytes() + joined_names(names_of(names@)),
        PartitionError::InvalidEndpoint => ("Invalid endpoint").spec_bytes(),
    }
}

impl PartitionError {
    /// Renders the error as a byte message.
    pub fn message(&self) -> (m: Vec<u8>)
        ensures
            m@ == partition_error_message(*self),
    {
        match self {
            PartitionError::InvalidEndpoint => ("Invalid endpoint").as_bytes_vec(),
            PartitionError::MissingPathParams(names) => {
                let mut m = ("missing path parameter").as_bytes_vec();
                if names.len() != 1 {
                    push_bytes(&mut m, ("s").as_bytes());
                }
                push_bytes(&mut m, (": ").as_bytes());
                let ghost nv = names_of(names@);
                let mut i: usize = 0;
                let ghost head = m@;
                while i < names.len()
                    invariant
                        i <= nv.len(),
                        nv.len() == names@.len(),
                        m@ == head + (if i == 0 {
                            Seq::<u8>::empty()
                        } else {
                            nv[0] + tail_joined(nv.subrange(1, i as int))
                        }),
                    decreases nv.len() - i,
                {
                    if i == 0 {
                        push_bytes(&mut m, names[0].as_slice());
                        proof {
                            assert(nv.subrange(1, 1) =~= Seq::<Seq<u8>>::empty());
                            assert(m@ =~= head + (nv[0] + tail_joined(nv.subrange(1, 1))));
                        }
                    } else {
                        push_bytes(&mut m, (", ").as_bytes());
                        push_bytes(&mut m, names[i].as_slice());
                        proof {
                            lemma_tail_joined_push(nv.subrange(1, i as int), nv[i as int]);
                            assert(nv.subrange(1, i + 1) =~= nv.subrange(1, i as int).push(
                                nv[i as int],
                            ));
                            assert(m@ =~= head + (nv[0] + tail_joined(nv.subrange(1, i + 1))));
                        }
                    }
                    i = i + 1;
                }
                proof {
                    if nv.len() == 0 {
                        assert(m@ =~= head + joined_names(nv));
                    } else {
                        assert(nv.subrange(1, nv.len() as int) =~= nv.drop_first());
                        assert(m@ =~= head + joined_names(nv));
                    }
                }
                m
            },
        }
    }
}

/// The result of a successful partition, as a spec: all placeholders
/// consumed, so the path fields are the placeholder names in template
/// order, and the query fields are what [`partition_rec`] leaves.
pub open spec fn partition_spec(endpoint: Seq<u8>, fields: Seq<Seq<u8>>) -> Result<
    (Seq<Seq<u8>>, Seq<Seq<u8>>),
    Seq<Seq<u8>>,
>
    recommends
        parse_spec(endpoint) is Some,
{
    let names = placeholder_names(parse_spec(endpoint).unwrap());
    let r = partition_rec(names, fields);
    if r.0.len() == 0 {
        Ok((names, r.1))
    } else {
        Err(r.0)
    }
}

/// Finds the first remaining placeholder equal to `x` and removes it.
fn take_first_name(names: &mut Vec<Vec<u8>>, x: &[u8]) -> (r: bool)
    ensures
        match first_name_index(names_of(old(names)@), x@) {
            Some(j) => r && names_of(final(names)@) == names_of(old(names)@).remove(j),
            None => !r && final(names)@ == old(names)@,
        },
{
    let ghost nv = names_of(names@);
    proof {
        lemma_first_name_index(nv, x@);
    }
    let mut i: usize = 0;
    while i < names.len()
        invariant
            i <= nv.len(),
            nv.len() == names@.len(),
            names@ == old(names)@,
            names_of(names@) == nv,
            forall|l: int| 0 <= l < i ==> nv[l] != x@,
        decreases nv.len() - i,
    {
        if bytes_eq(names[i].as_slice(), x) {
            proof {
                assert(nv[i as int] == x@);
            }
            let ghost before = names@;
            names.remove(i);
            proof {
                assert(first_name_index(nv, x@) == Some(i as int));
                assert(names_of(names@) =~= names_of(before).remove(i as int));
            }
            return true;
        }
        proof {
            assert(nv[i as int] == names@[i as int]@);
        }
        i = i + 1;
    }
    proof {
        assert(first_name_index(nv, x@) is None);
    }
    false
}

/// Partitions a record shape's field names against an endpoint template.
///
/// On success the path fields are the template's placeholder names in
/// template order and the query fields are the remaining field names in
/// record order.  A placeholder that no field fills is reported, with all
/// its fellows, as `missing path parameter(s): ...` in template order.
pub fn partition_fields(endpoint: &str, field_names: &Vec<String>) -> (r: Result<
    FieldPartition,
    PartitionError,
>)
    ensures
        match r {
            Ok(p) => parse_spec(endpoint.spec_bytes()) is Some && partition_spec(
                endpoint.spec_bytes(),
                field_names@.map_values(|s: String| encode_utf8(s@)),
            ) == Ok::<_, Seq<Seq<u8>>>(
                (names_of(p.path_fields@), p.query_fields@.map_values(|s: String| encode_utf8(s@))),
            ),
            Err(PartitionError::InvalidEndpoint) => parse_spec(endpoint.spec_bytes()) is None,
            Err(PartitionError::MissingPathParams(missing)) => parse_spec(endpoint.spec_bytes())
                is Some && partition_spec(
                endpoint.spec_bytes(),
                field_names@.map_values(|s: String| encode_utf8(s@)),
            ) == Err::<(Seq<Seq<u8>>, Seq<Seq<u8>>), _>(names_of(missing@)),
        },
{
    let all_names = match parse_url_params(endpoint) {
        Ok(names) => names,
        Err(_) => {
            return Err(PartitionError::InvalidEndpoint);
        },
    };
    let mut remaining = match parse_url_params(endpoint) {
        Ok(names) => names,
        Err(_) => {
            return Err(PartitionError::InvalidEndpoint);
        },
    };
    let ghost fv = field_names@.map_values(|s: String| encode_utf8(s@));
    let ghost names0 = names_of(all_names@);
    let mut query_fields: Vec<String> = Vec::new();
    let mut i: usize = 0;
    proof {
        assert(fv.skip(0) =~= fv);
        assert(query_fields@.map_values(|s: String| encode_utf8(s@)) =~= Seq::<Seq<u8>>::empty());
    }
    while i < field_names.len()
        invariant
            i <= fv.len(),
            fv.len() == field_names@.len(),
            partition_rec(names0, fv).0 == partition_rec(names_of(remaining@), fv.skip(i as int)).0,
            partition_rec(names0, fv).1 == query_fields@.map_values(|s: String| encode_utf8(s@))
                + partition_rec(names_of(remaining@), fv.skip(i as int)).1,
        decreases fv.len() - i,
    {
        let ghost rest = fv.skip(i as int);
        let ghost rem_before = names_of(remaining@);
        let ghost qacc = query_fields@.map_values(|s: String| encode_utf8(s@));
        proof {
            assert(rest[0] == fv[i as int]);
            assert(fv[i as int] == encode_utf8(field_names@[i as int]@));
            assert(rest.drop_first() =~= fv.skip(i + 1));
        }
        let name = &field_names[i];
        let consumed = take_first_name(&mut remaining, name.as_str().as_bytes());
        if !consumed {
            let ghost qbefore = query_fields@;
            query_fields.push(name.clone());
            proof {
                assert(query_fields@.map_values(|s: String| encode_utf8(s@)) =~= qacc.push(
                    encode_utf8(name@),
                ));
                assert(qacc.push(encode_utf8(name@)) + partition_rec(
                    names_of(remaining@),
                    fv.skip(i + 1),
                ).1 =~= qacc + (seq![encode_utf8(name@)] + partition_rec(
                    names_of(remaining@),
                    fv.skip(i + 1),
                ).1));
            }
        }
        i = i + 1;
    }
    proof {
        assert(fv.skip(fv.len() as int) =~= Seq::<Seq<u8>>::empty());
    }
    if remaining.len() > 0 {
        proof {
            assert(partition_rec(names0, fv).0 == names_of(remaining@));
        }
        return Err(PartitionError::MissingPathParams(remaining));
    }
    proof {
        assert(partition_rec(names0, fv).0 =~= Seq::<Seq<u8>>::empty());
        assert(partition_rec(names_of(remaining@), Seq::<Seq<u8>>::empty()).1 =~= Seq::<
            Seq<u8>,
        >::empty());
        assert(partition_rec(names0, fv).1 =~= query_fields@.map_values(
            |s: String| encode_utf8(s@),
        ));
    }
    Ok(FieldPartition { path_fields: all_names, query_fields })
}

/// Splits a whole record into its path record and its query record, each
/// field going to the side its name belongs to, both sides keeping the
/// record's original field order.
pub open spec fn project_spec(fields: Seq<FieldView>, path_names: Seq<Seq<u8>>) -> (Seq<FieldView>,
    Seq<FieldView>)
    decreases fields.len(),
{
    if fields.len() == 0 {
        (seq![], seq![])
    } else {
        let r = project_spec(fields.drop_first(), path_names);
        if first_name_index(path_names, fields[0].name) is Some {
            (seq![fields[0]] + r.0, r.1)
        } else {
            (r.0, seq![fields[0]] + r.1)
        }
    }
}

impl FieldPartition {
    /// Whether `name` is one of the path fields.
    pub fn is_path_field(&self, name: &str) -> (r: bool)
        ensures
            r == (first_name_index(names_of(self.path_fields@), name.spec_bytes()) is Some),
    {
        let ghost nv = names_of(self.path_fields@);
        proof {
            lemma_first_name_index(nv, name.spec_bytes());
        }
        let mut i: usize = 0;
        while i < self.path_fields.len()
            invariant
                i <= nv.len(),
                nv.len() == self.path_fields@.len(),
                forall|l: int| 0 <= l < i ==> nv[l] != name.spec_bytes(),
            decreases nv.len() - i,
        {
            if bytes_eq(self.path_fields[i].as_slice(), name.as_bytes()) {
                proof {
                    assert(nv[i as int] == name.spec_bytes());
                }
                return true;
            }
            proof {
                assert(nv[i as int] == self.path_fields@[i as int]@);
            }
            i = i + 1;
        }
        false
    }

    /// Projects a record into its path record and its query record.
    pub fn project(&self, mut record: Vec<Field>) -> (r: (Vec<Field>, Vec<Field>))
        ensures
            ({
                let s = project_spec(
                    record@.map_values(|f: Field| f@),
                    names_of(self.path_fields@),
                );
                r.0@.map_values(|f: Field| f@) == s.0 && r.1@.map_values(|f: Field| f@) == s.1
            }),
    {
        let ghost fv = record@.map_values(|f: Field| f@);
        let ghost pn = names_of(self.path_fields@);
        let mut path_record: Vec<Field> = Vec::new();
        let mut query_record: Vec<Field> = Vec::new();
        proof {
            assert(record@.map_values(|f: Field| f@) =~= fv.skip(0));
            assert(path_record@.map_values(|f: Field| f@) =~= Seq::<FieldView>::empty());
            assert(query_record@.map_values(|f: Field| f@) =~= Seq::<FieldView>::empty());
        }
        let ghost mut i: int = 0;
        while record.len() > 0
            invariant
                0 <= i <= fv.len(),
                record@.map_values(|f: Field| f@) == fv.skip(i),
                project_spec(fv, pn).0 == path_record@.map_values(|f: Field| f@) + project_spec(
                    fv.skip(i),
                    pn,
                ).0,
                project_spec(fv, pn).1 == query_record@.map_values(|f: Field| f@) + project_spec(
                    fv.skip(i),
                    pn,
                ).1,
            decreases record@.len(),
    {
            let ghost rest = fv.skip(i);
            proof {
                assert(rest.len() == record@.len());
                assert(rest[0] == record@[0]@);
                assert(rest.drop_first() =~= fv.skip(i + 1));
            }
            let field = record.remove(0);
            proof {
                assert(record@.map_values(|f: Field| f@) =~= fv.skip(i + 1));
            }
            let on_path = self.is_path_field(field.name.as_str());
            if on_path {
                let ghost before = path_record@;
                path_record.push(field);
                proof {
                    assert(path_record@.map_values(|f: Field| f@) =~= before.map_values(
                        |f: Field| f@,
                    ).push(rest[0]));
                    assert(before.map_values(|f: Field| f@).push(rest[0]) + project_spec(
                        fv.skip(i + 1),
                        pn,
                    ).0 =~= before.map_values(|f: Field| f@) + (seq![rest[0]] + project_spec(
                        fv.skip(i + 1),
                        pn,
                    ).0));
                }
            } else {
                let ghost before = query_record@;
                query_record.push(field);
                proof {
                    assert(query_record@.map_values(|f: Field| f@) =~= before.map_values(
                        |f: Field| f@,
                    ).push(rest[0]));
                    assert(before.map_values(|f: Field| f@).push(rest[0]) + project_spec(
                        fv.skip(i + 1),
                        pn,
                    ).1 =~= before.map_values(|f: Field| f@) + (seq![rest[0]] + project_spec(
                        fv.skip(i + 1),
                        pn,
                    ).1));
                }
            }
            proof {
                i = i + 1;
            }
        }
        proof {
            assert(fv.skip(i) =~= Seq::<FieldView>::empty());
            assert(project_spec(Seq::<FieldView>::empty(), pn).0 =~= Seq::<FieldView>::empty());
            assert(project_spec(Seq::<FieldView>::empty(), pn).1 =~= Seq::<FieldView>::empty());
        }
        (path_record, query_record)
    }
}

} // verus!
