//! Proved properties relating the library's operations across functions.

use vstd::prelude::*;

use crate::partition::{first_name_index, lemma_first_name_index, partition_rec, placeholder_names};
use crate::percent::lemma_percent_encoded_no_braces;
use crate::url::{
    build_path_spec, end_spec, fill_record, find_open, lemma_find_open, parse_spec, scan_endpoint,
    FieldView, ParamsView, PartView,
};
use crate::value::{dec_digits, dec_int, encode_spec, Value};
use vstd::string::StringSliceAdditionalSpecFns;
use vstd::utf8::{encode_scalar, encode_utf8};

verus! {

/// What one byte contributes to the brace depth.
pub open spec fn brace_step(b: u8) -> int {
    if b == 0x7b {
        1
    } else if b == 0x7d {
        -1
    } else {
        0
    }
}

/// The number of `{` minus the number of `}` in the bytes.
pub open spec fn brace_delta(s: Seq<u8>) -> int
    decreases s.len(),
{
    if s.len() == 0 {
        0
    } else {
        brace_delta(s.drop_last()) + brace_step(s.last())
    }
}

/// The brace delta of a concatenation is the sum of the deltas.
pub proof fn lemma_brace_delta_concat(a: Seq<u8>, b: Seq<u8>)
    ensures
        brace_delta(a + b) == brace_delta(a) + brace_delta(b),
    decreases b.len(),
{
    if b.len() == 0 {
        assert(a + b =~= a);
    } else {
        lemma_brace_delta_concat(a, b.drop_last());
        assert((a + b).drop_last() =~= a + b.drop_last());
        assert((a + b).last() == b.last());
    }
}

/// A template is balanced and non-nested when every prefix holds at most
/// one more `{` than `}` and never more `}` than `{`, and the whole holds
/// equally many.
pub open spec fn balanced_non_nested(s: Seq<u8>) -> bool {
    brace_delta(s) == 0 && forall|j: int|
        0 <= j <= s.len() ==> 0 <= #[trigger] brace_delta(s.subrange(0, j)) <= 1
}

/// The brace depth reached at position `j`, scanning from position `i` at
/// depth zero or one.
pub open spec fn depth_at(s: Seq<u8>, i: int, in_param: bool, j: int) -> int {
    (if in_param {
        1int
    } else {
        0int
    }) + brace_delta(s.subrange(i, j))
}

/// The scan succeeds from a position exactly when the brace depth stays
/// between zero and one over the rest and ends at zero.
pub proof fn lemma_scan_iff_balanced(s: Seq<u8>, i: int, start: int, in_param: bool, acc: Seq<
    PartView,
>)
    requires
        0 <= start <= i <= s.len(),
    ensures
        scan_endpoint(s, i, start, in_param, acc) is Some <==> ((forall|j: int|
            i <= j <= s.len() ==> 0 <= #[trigger] depth_at(s, i, in_param, j) <= 1) && depth_at(
            s,
            i,
            in_param,
            s.len() as int,
        ) == 0),
    decreases s.len() - i,
{
    let d0: int = if in_param {
        1
    } else {
        0
    };
    assert(s.subrange(i, i) =~= Seq::<u8>::empty());
    assert(brace_delta(Seq::<u8>::empty()) == 0);
    assert(depth_at(s, i, in_param, i) == d0);
    if i >= s.len() {
    } else {
        let b = s[i];
        assert forall|j: int|
            i + 1 <= j <= s.len() implies #[trigger] depth_at(s, i, in_param, j) == d0
            + brace_step(b) + brace_delta(s.subrange(i + 1, j)) by {
            assert(s.subrange(i, j) =~= seq![b] + s.subrange(i + 1, j));
            lemma_brace_delta_concat(seq![b], s.subrange(i + 1, j));
            assert(seq![b].drop_last() =~= Seq::<u8>::empty());
            assert(seq![b].last() == b);
            assert(brace_delta(seq![b]) == brace_step(b));
        }
        if b == 0x7b {
            let acc2 = if start != i {
                acc.push(PartView::Raw(s.subrange(start, i)))
            } else {
                acc
            };
            lemma_scan_iff_balanced(s, i + 1, i + 1, true, acc2);
            if in_param {
                assert(s.subrange(i + 1, i + 1) =~= Seq::<u8>::empty());
                assert(depth_at(s, i, in_param, i + 1) == 2);
                assert(scan_endpoint(s, i, start, in_param, acc) is None);
            } else {
                assert forall|j: int|
                    i + 1 <= j <= s.len() implies #[trigger] depth_at(s, i, in_param, j)
                    == depth_at(s, i + 1, true, j) by {}
                assert(scan_endpoint(s, i, start, in_param, acc) == scan_endpoint(
                    s,
                    i + 1,
                    i + 1,
                    true,
                    acc2,
                ));
                if forall|j: int| i + 1 <= j <= s.len() ==> 0 <= #[trigger] depth_at(
                    s,
                    i + 1,
                    true,
                    j,
                ) <= 1 {
                    assert forall|j: int| i <= j <= s.len() implies 0 <= #[trigger] depth_at(
                        s,
                        i,
                        in_param,
                        j,
                    ) <= 1 by {
                        if j > i {
                            assert(0 <= depth_at(s, i + 1, true, j) <= 1);
                        }
                    }
                } else {
                    let j = choose|j: int|
                        i + 1 <= j <= s.len() && !(0 <= #[trigger] depth_at(s, i + 1, true, j)
                            <= 1);
                    assert(depth_at(s, i, in_param, j) == depth_at(s, i + 1, true, j));
                }
            }
        } else if b == 0x7d {
            let acc2 = if start != i {
                acc.push(PartView::Key(s.subrange(start, i)))
            } else {
                acc
            };
            lemma_scan_iff_balanced(s, i + 1, i + 1, false, acc2);
            if !in_param {
                assert(s.subrange(i + 1, i + 1) =~= Seq::<u8>::empty());
                assert(depth_at(s, i, in_param, i + 1) == -1);
                assert(scan_endpoint(s, i, start, in_param, acc) is None);
            } else {
                assert forall|j: int|
                    i + 1 <= j <= s.len() implies #[trigger] depth_at(s, i, in_param, j)
                    == depth_at(s, i + 1, false, j) by {}
                assert(scan_endpoint(s, i, start, in_param, acc) == scan_endpoint(
                    s,
                    i + 1,
                    i + 1,
                    false,
                    acc2,
                ));
                if forall|j: int| i + 1 <= j <= s.len() ==> 0 <= #[trigger] depth_at(
                    s,
                    i + 1,
                    false,
                    j,
                ) <= 1 {
                    assert forall|j: int| i <= j <= s.len() implies 0 <= #[trigger] depth_at(
                        s,
                        i,
                        in_param,
                        j,
                    ) <= 1 by {
                        if j > i {
                            assert(0 <= depth_at(s, i + 1, false, j) <= 1);
                        }
                    }
                } else {
                    let j = choose|j: int|
                        i + 1 <= j <= s.len() && !(0 <= #[trigger] depth_at(s, i + 1, false, j)
                            <= 1);
                    assert(depth_at(s, i, in_param, j) == depth_at(s, i + 1, false, j));
                }
            }
        } else {
            lemma_scan_iff_balanced(s, i + 1, start, in_param, acc);
            assert forall|j: int|
                i + 1 <= j <= s.len() implies #[trigger] depth_at(s, i, in_param, j) == depth_at(
                s,
                i + 1,
                in_param,
                j,
            ) by {}
            if forall|j: int| i + 1 <= j <= s.len() ==> 0 <= #[trigger] depth_at(
                s,
                i + 1,
                in_param,
                j,
            ) <= 1 {
                assert forall|j: int| i <= j <= s.len() implies 0 <= #[trigger] depth_at(
                    s,
                    i,
                    in_param,
                    j,
                ) <= 1 by {
                    if j > i {
                        assert(0 <= depth_at(s, i + 1, in_param, j) <= 1);
                    }
                }
            } else {
                let j = choose|j: int|
                    i + 1 <= j <= s.len() && !(0 <= #[trigger] depth_at(s, i + 1, in_param, j)
                        <= 1);
                assert(depth_at(s, i, in_param, j) == depth_at(s, i + 1, in_param, j));
            }
        }
    }
}

/// A template parses exactly when its braces are balanced and non-nested;
/// on every other template the parse fails (and the parser, being
/// verified, neither panics nor loops).
pub proof fn lemma_parse_iff_balanced(s: Seq<u8>)
    ensures
        parse_spec(s) is Some <==> balanced_non_nested(s),
{
    lemma_scan_iff_balanced(s, 0, 0, false, seq![]);
    assert forall|j: int| 0 <= j <= s.len() implies #[trigger] brace_delta(s.subrange(0, j))
        == depth_at(s, 0, false, j) by {
    }
    assert(depth_at(s, 0, false, s.len() as int) == brace_delta(s)) by {
        assert(s.subrange(0, s.len() as int) =~= s);
    }
}

/// Bytes holding neither brace.
pub open spec fn bytes_brace_free(s: Seq<u8>) -> bool {
    forall|l: int| 0 <= l < s.len() ==> s[l] != 0x7b && s[l] != 0x7d
}

/// A part whose text holds no brace; an open placeholder has no text yet.
pub open spec fn seg_brace_free(p: PartView) -> bool {
    match p {
        PartView::Raw(s) => bytes_brace_free(s),
        PartView::Filled(t) => bytes_brace_free(t),
        PartView::Key(_) => true,
    }
}

/// Parts all of whose text holds no brace.
pub open spec fn parts_brace_free(parts: Seq<PartView>) -> bool {
    forall|j: int| 0 <= j < parts.len() ==> seg_brace_free(#[trigger] parts[j])
}

/// Every token the value encoder produces is free of braces.
pub proof fn lemma_encode_brace_free(v: Value)
    requires
        encode_spec(v) is Some,
    ensures
        bytes_brace_free(encode_spec(v)->Some_0),
    decreases v,
{
    match v {
        Value::Bool(b) => {
            lemma_percent_encoded_no_braces(
                if b {
                    ("true").spec_bytes()
                } else {
                    ("false").spec_bytes()
                },
            );
        },
        Value::I8(x) => lemma_percent_encoded_no_braces(dec_int(x as int)),
        Value::I16(x) => lemma_percent_encoded_no_braces(dec_int(x as int)),
        Value::I32(x) => lemma_percent_encoded_no_braces(dec_int(x as int)),
        Value::I64(x) => lemma_percent_encoded_no_braces(dec_int(x as int)),
        Value::U8(x) => lemma_percent_encoded_no_braces(dec_digits(x as nat)),
        Value::U16(x) => lemma_percent_encoded_no_braces(dec_digits(x as nat)),
        Value::U32(x) => lemma_percent_encoded_no_braces(dec_digits(x as nat)),
        Value::U64(x) => lemma_percent_encoded_no_braces(dec_digits(x as nat)),
        Value::Float(text) => lemma_percent_encoded_no_braces(encode_utf8(text@)),
        Value::Char(c) => lemma_percent_encoded_no_braces(encode_scalar(c as u32)),
        Value::Text(t) => lemma_percent_encoded_no_braces(encode_utf8(t@)),
        Value::Bytes(b) => lemma_percent_encoded_no_braces(b@),
        Value::UnitVariant(name) => lemma_percent_encoded_no_braces(encode_utf8(name@)),
        Value::Wrapped(inner) => lemma_encode_brace_free(*inner),
        _ => {},
    }
}

/// Every literal and placeholder the scanner produces from brace-free
/// regions is brace-free.
pub proof fn lemma_scan_brace_free(s: Seq<u8>, i: int, start: int, in_param: bool, acc: Seq<
    PartView,
>)
    requires
        0 <= start <= i <= s.len(),
        forall|l: int| start <= l < i ==> s[l] != 0x7b && s[l] != 0x7d,
        parts_brace_free(acc),
        scan_endpoint(s, i, start, in_param, acc) is Some,
    ensures
        parts_brace_free(scan_endpoint(s, i, start, in_param, acc)->Some_0),
    decreases s.len() - i,
{
    if i >= s.len() {
        if start != s.len() {
            let lit = s.subrange(start, s.len() as int);
            assert(bytes_brace_free(lit));
            assert(parts_brace_free(acc.push(PartView::Raw(lit)))) by {
                assert(forall|j: int|
                    0 <= j < acc.len() ==> acc.push(PartView::Raw(lit))[j] == acc[j]);
            }
        }
    } else if s[i] == 0x7b {
        let lit = s.subrange(start, i);
        let acc2 = if start != i {
            acc.push(PartView::Raw(lit))
        } else {
            acc
        };
        assert(bytes_brace_free(lit));
        assert(parts_brace_free(acc2)) by {
            if start != i {
                assert(forall|j: int| 0 <= j < acc.len() ==> acc2[j] == acc[j]);
            }
        }
        lemma_scan_brace_free(s, i + 1, i + 1, true, acc2);
    } else if s[i] == 0x7d {
        let key = s.subrange(start, i);
        let acc2 = if start != i {
            acc.push(PartView::Key(key))
        } else {
            acc
        };
        assert(parts_brace_free(acc2)) by {
            if start != i {
                assert(forall|j: int| 0 <= j < acc.len() ==> acc2[j] == acc[j]);
            }
        }
        lemma_scan_brace_free(s, i + 1, i + 1, false, acc2);
    } else {
        lemma_scan_brace_free(s, i + 1, start, in_param, acc);
    }
}

/// Filling the first open placeholder named `k` removes exactly one `k`
/// from the open placeholder names and keeps everything else.
pub proof fn lemma_fill_removes_key(parts: Seq<PartView>, k: Seq<u8>, j: int, t: Seq<u8>)
    requires
        find_open(parts, k) == Some(j),
    ensures
        0 <= j < parts.len(),
        placeholder_names(parts.update(j, PartView::Filled(t))).to_multiset() == placeholder_names(
            parts,
        ).to_multiset().remove(k),
        parts_brace_free(parts) && bytes_brace_free(t) ==> parts_brace_free(
            parts.update(j, PartView::Filled(t)),
        ),
    decreases parts.len(),
{
    lemma_find_open(parts, k);
    let updated = parts.update(j, PartView::Filled(t));
    assert(parts_brace_free(parts) && bytes_brace_free(t) ==> parts_brace_free(updated)) by {
        if parts_brace_free(parts) && bytes_brace_free(t) {
            assert(forall|l: int|
                0 <= l < updated.len() && l != j ==> updated[l] == parts[l]);
            assert(seg_brace_free(updated[j]));
        }
    }
    let names = placeholder_names(parts);
    let names2 = placeholder_names(updated);
    if j == 0 {
        assert(updated.drop_first() =~= parts.drop_first());
        assert(names =~= seq![k] + placeholder_names(parts.drop_first()));
        assert(names2 =~= placeholder_names(parts.drop_first()));
        assert(names.remove(0) =~= names2);
        assert(names[0] == k);
        names.to_multiset_ensures();
        assert(names.remove(0).to_multiset() =~= names.to_multiset().remove(k));
    } else {
        assert(parts[0] != PartView::Key(k));
        assert(find_open(parts.drop_first(), k) == Some(j - 1));
        lemma_fill_removes_key(parts.drop_first(), k, j - 1, t);
        assert(updated.drop_first() =~= parts.drop_first().update(j - 1, PartView::Filled(t)));
        assert(updated[0] == parts[0]);
        let sub = placeholder_names(parts.drop_first());
        let sub2 = placeholder_names(parts.drop_first().update(j - 1, PartView::Filled(t)));
        match parts[0] {
            PartView::Key(k0) => {
                assert(names =~= seq![k0] + sub);
                assert(names2 =~= seq![k0] + sub2);
                assert(names.drop_first() =~= sub);
                assert(names2.drop_first() =~= sub2);
                names.to_multiset_ensures();
                names2.to_multiset_ensures();
                sub.to_multiset_ensures();
                sub2.to_multiset_ensures();
                assert(names.remove(0) =~= sub);
                assert(names2.remove(0) =~= sub2);
                assert(names.to_multiset().remove(k0) =~= sub.to_multiset());
                assert(names2.to_multiset().remove(k0) =~= sub2.to_multiset());
                assert(names2.to_multiset() =~= names.to_multiset().remove(k)) by {
                    assert(sub2.to_multiset() =~= sub.to_multiset().remove(k));
                    assert(names.to_multiset().contains(k0));
                    assert(names2.to_multiset() =~= sub2.to_multiset().insert(k0));
                    assert(names.to_multiset() =~= sub.to_multiset().insert(k0));
                    assert(k0 != k);
                    assert(sub.to_multiset().insert(k0).remove(k) =~= sub.to_multiset().remove(
                        k,
                    ).insert(k0));
                }
            },
            _ => {
                assert(names =~= sub);
                assert(names2 =~= sub2);
            },
        }
    }
}

/// A name among the open placeholders can always be found.
pub proof fn lemma_open_key_findable(parts: Seq<PartView>, k: Seq<u8>)
    requires
        placeholder_names(parts).contains(k),
    ensures
        find_open(parts, k) is Some,
    decreases parts.len(),
{
    let names = placeholder_names(parts);
    if parts.len() == 0 {
        assert(false);
    } else if parts[0] == PartView::Key(k) {
    } else {
        let sub = placeholder_names(parts.drop_first());
        match parts[0] {
            PartView::Key(k0) => {
                assert(names =~= seq![k0] + sub);
                let idx = choose|idx: int| 0 <= idx < names.len() && names[idx] == k;
                assert(idx != 0);
                assert(sub[idx - 1] == k);
                assert(sub.contains(k));
            },
            _ => {
                assert(names =~= sub);
            },
        }
        lemma_open_key_findable(parts.drop_first(), k);
    }
}

/// A record supplying exactly the open placeholder names — distinct, in
/// any order, each with an encodable value — fills them all.
pub proof fn lemma_fill_record_complete(parts: Seq<PartView>, fields: Seq<FieldView>)
    requires
        fields.map_values(|f: FieldView| f.name).to_multiset() == placeholder_names(
            parts,
        ).to_multiset(),
        forall|x: Seq<u8>| placeholder_names(parts).to_multiset().count(x) <= 1,
        forall|i: int| 0 <= i < fields.len() ==> encode_spec(#[trigger] fields[i].value) is Some,
        parts_brace_free(parts),
    ensures
        fill_record(parts, fields) is Ok,
        placeholder_names(fill_record(parts, fields)->Ok_0).len() == 0,
        parts_brace_free(fill_record(parts, fields)->Ok_0),
    decreases fields.len(),
{
    let names = placeholder_names(parts);
    let fnames = fields.map_values(|f: FieldView| f.name);
    names.to_multiset_ensures();
    fnames.to_multiset_ensures();
    if fields.len() == 0 {
        assert(names.len() == names.to_multiset().len());
        assert(fnames.to_multiset().len() == 0);
    } else {
        let f = fields[0];
        assert(fnames[0] == f.name);
        assert(fnames.contains(f.name));
        assert(names.to_multiset().count(f.name) > 0);
        assert(names.contains(f.name));
        lemma_open_key_findable(parts, f.name);
        let j = find_open(parts, f.name)->Some_0;
        let token = encode_spec(f.value)->Some_0;
        lemma_fill_removes_key(parts, f.name, j, token);
        lemma_encode_brace_free(f.value);
        let parts2 = parts.update(j, PartView::Filled(token));
        let rest = fields.drop_first();
        assert(rest.map_values(|f: FieldView| f.name) =~= fnames.drop_first());
        assert(fnames.drop_first() =~= fnames.remove(0));
        assert(fnames.remove(0).to_multiset() =~= fnames.to_multiset().remove(f.name));
        assert(placeholder_names(parts2).to_multiset() =~= fnames.to_multiset().remove(f.name));
        assert(forall|x: Seq<u8>|
            placeholder_names(parts2).to_multiset().count(x) <= names.to_multiset().count(x));
        assert(forall|i: int|
            0 <= i < rest.len() ==> encode_spec(#[trigger] rest[i].value) is Some) by {
            assert(forall|i: int| 0 <= i < rest.len() ==> rest[i] == fields[i + 1]);
        }
        lemma_fill_record_complete(parts2, rest);
    }
}

/// With every placeholder filled, finalization succeeds, and a brace-free
/// base with brace-free parts yields a brace-free URL.
pub proof fn lemma_end_complete(url: Seq<u8>, parts: Seq<PartView>)
    requires
        placeholder_names(parts).len() == 0,
        parts_brace_free(parts),
        bytes_brace_free(url),
    ensures
        end_spec(url, parts) is Ok,
        bytes_brace_free(end_spec(url, parts)->Ok_0),
    decreases parts.len(),
{
    if parts.len() > 0 {
        match parts[0] {
            PartView::Key(k) => {
                assert(placeholder_names(parts) =~= seq![k] + placeholder_names(
                    parts.drop_first(),
                ));
                assert(false);
            },
            PartView::Raw(t) => {
                assert(placeholder_names(parts) =~= placeholder_names(parts.drop_first()));
                assert(seg_brace_free(parts[0]));
                assert(bytes_brace_free(url + t)) by {
                    assert(forall|l: int| 0 <= l < url.len() ==> (url + t)[l] == url[l]);
                    assert(forall|l: int|
                        url.len() <= l < url.len() + t.len() ==> (url + t)[l] == t[l - url.len()]);
                }
                assert(parts_brace_free(parts.drop_first())) by {
                    assert(forall|j: int|
                        0 <= j < parts.drop_first().len() ==> parts.drop_first()[j] == parts[j
                            + 1]);
                }
                lemma_end_complete(url + t, parts.drop_first());
            },
            PartView::Filled(t) => {
                assert(placeholder_names(parts) =~= placeholder_names(parts.drop_first()));
                assert(seg_brace_free(parts[0]));
                assert(bytes_brace_free(url + t)) by {
                    assert(forall|l: int| 0 <= l < url.len() ==> (url + t)[l] == url[l]);
                    assert(forall|l: int|
                        url.len() <= l < url.len() + t.len() ==> (url + t)[l] == t[l - url.len()]);
                }
                assert(parts_brace_free(parts.drop_first())) by {
                    assert(forall|j: int|
                        0 <= j < parts.drop_first().len() ==> parts.drop_first()[j] == parts[j
                            + 1]);
                }
                lemma_end_complete(url + t, parts.drop_first());
            },
        }
    }
}

/// Substitution always succeeds on a well-formed template whose distinct
/// placeholders are each supplied, in any order, by one record field with
/// an encodable value — and the URL it builds contains no residual brace,
/// the base URL being brace-free.
pub proof fn lemma_substitution_complete(base: Seq<u8>, endpoint: Seq<u8>, fields: Seq<FieldView>)
    requires
        parse_spec(endpoint) is Some,
        placeholder_names(parse_spec(endpoint)->Some_0).no_duplicates(),
        fields.map_values(|f: FieldView| f.name).to_multiset() == placeholder_names(
            parse_spec(endpoint)->Some_0,
        ).to_multiset(),
        forall|i: int| 0 <= i < fields.len() ==> encode_spec(#[trigger] fields[i].value) is Some,
        bytes_brace_free(base),
    ensures
        build_path_spec(base, endpoint, ParamsView::Record(fields)) is Ok,
        bytes_brace_free(build_path_spec(base, endpoint, ParamsView::Record(fields))->Ok_0),
{
    let parts = parse_spec(endpoint)->Some_0;
    let names = placeholder_names(parts);
    lemma_scan_brace_free(endpoint, 0, 0, false, seq![]);
    names.lemma_multiset_has_no_duplicates();
    names.to_multiset_ensures();
    assert(forall|x: Seq<u8>| names.to_multiset().count(x) <= 1) by {
        assert(forall|x: Seq<u8>|
            !names.to_multiset().contains(x) ==> names.to_multiset().count(x) == 0);
    }
    lemma_fill_record_complete(parts, fields);
    lemma_end_complete(base, fill_record(parts, fields)->Ok_0);
}

/// Value encoding is a pure function of the value: any two tokens encoded
/// from the same value are identical.
pub proof fn lemma_value_encoding_pure(v: Value, t1: Seq<u8>, t2: Seq<u8>)
    requires
        encode_spec(v) == Some(t1),
        encode_spec(v) == Some(t2),
    ensures
        t1 == t2,
{
}


/// Filters agreeing on every element of a sequence filter it alike.
pub proof fn lemma_filter_congruent<A>(s: Seq<A>, p1: spec_fn(A) -> bool, p2: spec_fn(A) -> bool)
    requires
        forall|i: int| 0 <= i < s.len() ==> p1(#[trigger] s[i]) == p2(s[i]),
    ensures
        s.filter(p1) == s.filter(p2),
    decreases s.len(),
{
    reveal(Seq::filter);
    if s.len() != 0 {
        assert(forall|i: int|
            0 <= i < s.drop_last().len() ==> s.drop_last()[i] == s[i]);
        lemma_filter_congruent(s.drop_last(), p1, p2);
        assert(p1(s.last()) == p2(s.last()));
    }
}

/// The query side of the partition keeps the record's own order: for a
/// record with distinct field names it is exactly the record's name list
/// filtered down to the names that match no placeholder.
pub proof fn lemma_partition_query_order(names: Seq<Seq<u8>>, fields: Seq<Seq<u8>>)
    requires
        fields.no_duplicates(),
    ensures
        partition_rec(names, fields).1 == fields.filter(
            |f: Seq<u8>| !names.contains(f),
        ),
    decreases fields.len(),
{
    reveal(Seq::filter);
    let pred = |f: Seq<u8>| !names.contains(f);
    if fields.len() == 0 {
        assert(fields.filter(pred) =~= Seq::<Seq<u8>>::empty());
    } else {
        let f = fields[0];
        let rest = fields.drop_first();
        assert(rest.no_duplicates()) by {
            assert(forall|i: int| 0 <= i < rest.len() ==> rest[i] == fields[i + 1]);
        }
        assert(fields =~= seq![f] + rest);
        Seq::filter_distributes_over_add(seq![f], rest, pred);
        assert(seq![f].drop_last() =~= Seq::<Seq<u8>>::empty());
        assert(seq![f].last() == f);
        assert(Seq::<Seq<u8>>::empty().filter(pred) =~= Seq::<Seq<u8>>::empty());
        assert(seq![f].filter(pred) =~= if pred(f) {
            seq![f]
        } else {
            Seq::<Seq<u8>>::empty()
        });
        lemma_first_name_index(names, f);
        match first_name_index(names, f) {
            Some(j) => {
                assert(names.contains(f));
                assert(!pred(f));
                let names2 = names.remove(j);
                lemma_partition_query_order(names2, rest);
                let pred2 = |g: Seq<u8>| !names2.contains(g);
                assert(forall|i: int| 0 <= i < rest.len() ==> pred2(#[trigger] rest[i]) == pred(
                    rest[i],
                )) by {
                    names.to_multiset_ensures();
                    names2.to_multiset_ensures();
                    assert(names2.to_multiset() =~= names.to_multiset().remove(f));
                    assert forall|i: int| 0 <= i < rest.len() implies pred2(#[trigger] rest[i])
                        == pred(rest[i]) by {
                        let g = rest[i];
                        assert(g == fields[i + 1]);
                        assert(g != f);
                        assert(names2.to_multiset().count(g) == names.to_multiset().count(g));
                        assert(names2.contains(g) == names.contains(g));
                    }
                }
                lemma_filter_congruent(rest, pred2, pred);
                assert(partition_rec(names, fields).1 =~= rest.filter(pred));
                assert(fields.filter(pred) =~= rest.filter(pred));
            },
            None => {
                assert(!names.contains(f)) by {
                    if names.contains(f) {
                        let idx = choose|idx: int| 0 <= idx < names.len() && names[idx] == f;
                        assert(names[idx] == f);
                    }
                }
                assert(pred(f));
                lemma_partition_query_order(names, rest);
                assert(partition_rec(names, fields).1 =~= seq![f] + rest.filter(pred));
                assert(fields.filter(pred) =~= seq![f] + rest.filter(pred));
            },
        }
    }
}

} // verus!
