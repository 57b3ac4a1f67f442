//! What holds of values, of their kinds and of sets of them.
use crate::attribute::SchemaAttribute;
use crate::error::SchemaError;
use crate::value::{IndexType, PartialValue, SyntaxType, Value, ValueSet};
use vstd::prelude::*;

verus! {

use crate::attribute::SchemaAttributeView;
use crate::error::SchemaErrorView;
use crate::order::text_precedes;
use crate::value::{ascending, law_inserted, PartialValueView, ValueView};

/// The kind of data that a value is.
pub open spec fn kind_of(p: PartialValueView) -> SyntaxType {
    match p {
        PartialValueView::Utf8(_) => SyntaxType::UTF8STRING,
        PartialValueView::Iutf8(_) => SyntaxType::UTF8STRING_INSENSITIVE,
        PartialValueView::Iname(_) => SyntaxType::UTF8STRING_INAME,
        PartialValueView::Uuid(_) => SyntaxType::UUID,
        PartialValueView::Bool(_) => SyntaxType::BOOLEAN,
        PartialValueView::Syntax(_) => SyntaxType::SYNTAX_ID,
        PartialValueView::Index(_) => SyntaxType::INDEX_ID,
        PartialValueView::Refer(_) => SyntaxType::REFERENCE_UUID,
        PartialValueView::JsonFilt(_) => SyntaxType::JSON_FILTER,
        PartialValueView::Cred(_) => SyntaxType::CREDENTIAL,
        PartialValueView::SshKey(_) => SyntaxType::SSHKEY,
        PartialValueView::RadiusCred => SyntaxType::RADIUS_UTF8STRING,
        PartialValueView::Spn(_, _) => SyntaxType::SERVICE_PRINCIPLE_NAME,
        PartialValueView::Uint32(_) => SyntaxType::UINT32,
        PartialValueView::Cid(_) => SyntaxType::CID,
        PartialValueView::Nsuniqueid(_) => SyntaxType::NSUNIQUEID,
    }
}

/// Whether values may stand under an attribute: one at most unless it takes
/// several, and all of the kind that it holds.
pub open spec fn fits(a: SchemaAttributeView, values: Seq<ValueView>) -> bool {
    &&& a.multivalue || values.len() <= 1
    &&& forall|i: int| 0 <= i < values.len() ==> kind_of((#[trigger] values[i]).partial) == a.syntax
}

/// An attribute admits the values of its own kind and no others.
pub proof fn law_admits(s: SyntaxType, p: PartialValueView)
    ensures
        s.admits(p) <==> kind_of(p) == s,
{
}

/// A value, as a filter states it, is accepted if and only if it is of the kind of
/// the attribute. Nothing else of the attribute matters. The only error names the
/// attribute as it was given.
pub proof fn law_partial_values(
    a: SchemaAttribute,
    name: &str,
    p: PartialValue,
    r: Result<(), SchemaError>,
)
    requires
        call_ensures(SchemaAttribute::validate_partialvalue, (&a, name, &p), r),
    ensures
        r is Ok <==> kind_of(p@) == a.syntax,
        r matches Err(e) ==> e@ == SchemaErrorView::InvalidAttributeSyntax(name@),
{
}

/// A value of an entry is accepted if and only if it is whole and of the kind of
/// the attribute.
pub proof fn law_values(a: SchemaAttribute, name: &str, v: Value, r: Result<(), SchemaError>)
    requires
        call_ensures(SchemaAttribute::validate_value, (&a, name, &v), r),
    ensures
        r is Ok <==> v.valid && kind_of(v.partial@) == a.syntax,
        r matches Err(e) ==> e@ == SchemaErrorView::InvalidAttributeSyntax(name@),
{
}

/// A set of values is accepted if and only if it has one value at most, or the
/// attribute takes several, and each value is of the kind of the attribute.
pub proof fn law_sets_of_values(
    a: SchemaAttribute,
    name: &str,
    values: ValueSet,
    r: Result<(), SchemaError>,
)
    requires
        call_ensures(SchemaAttribute::validate_ava, (&a, name, &values), r),
    ensures
        r is Ok <==> {
            &&& a.multivalue || values@.len() <= 1
            &&& forall|i: int|
                0 <= i < values@.len() ==> kind_of((#[trigger] values@[i]).partial) == a.syntax
        },
        r matches Err(e) ==> e@ == SchemaErrorView::InvalidAttributeSyntax(name@),
{
    lemma_accepts(a@, values@);
}

/// What an attribute accepts is what fits it.
pub(crate) proof fn lemma_accepts(a: SchemaAttributeView, values: Seq<ValueView>)
    ensures
        a.accepts(values) <==> fits(a, values),
{
    assert forall|i: int| 0 <= i < values.len() implies a.syntax.admits(
        (#[trigger] values[i]).partial,
    ) == (kind_of(values[i].partial) == a.syntax) by {
        law_admits(a.syntax, values[i].partial);
    }
}

/// Text, text whose case does not matter and names have a text, and it is what
/// they hold. No other value has one.
pub proof fn law_texts(p: PartialValueView, s: Seq<char>)
    ensures
        p.text() == Some(s) <==> p == PartialValueView::Utf8(s) || p == PartialValueView::Iutf8(s)
            || p == PartialValueView::Iname(s),
        p.text() is None <==> !(p is Utf8 || p is Iutf8 || p is Iname),
{
}

/// A value comes before another of its kind if what it holds is less: texts as they
/// compare, false before true, lesser numbers first, identifiers by their numbers, and
/// a name and its realm by the name first.
pub proof fn law_order_within_a_kind(p: PartialValueView, q: PartialValueView)
    requires
        kind_of(p) == kind_of(q),
    ensures
        p.precedes(q) <==> match (p, q) {
            (PartialValueView::Bool(x), PartialValueView::Bool(y)) => !x && y,
            (PartialValueView::Uint32(x), PartialValueView::Uint32(y)) => x < y,
            (PartialValueView::Cid(x), PartialValueView::Cid(y)) => x < y,
            (PartialValueView::Uuid(x), PartialValueView::Uuid(y)) => x < y,
            (PartialValueView::Refer(x), PartialValueView::Refer(y)) => x < y,
            (PartialValueView::Spn(s, x), PartialValueView::Spn(t, y)) => text_precedes(s, t) || (s
                == t && text_precedes(x, y)),
            (PartialValueView::Index(x), PartialValueView::Index(y)) => {
                ||| x is EQUALITY && !(y is EQUALITY)
                ||| x is PRESENCE && y is SUBSTRING
            },
            (PartialValueView::Syntax(x), PartialValueView::Syntax(y)) => x.place() < y.place(),
            (PartialValueView::Utf8(s), PartialValueView::Utf8(t)) => text_precedes(s, t),
            (PartialValueView::Iutf8(s), PartialValueView::Iutf8(t)) => text_precedes(s, t),
            (PartialValueView::Iname(s), PartialValueView::Iname(t)) => text_precedes(s, t),
            (PartialValueView::JsonFilt(s), PartialValueView::JsonFilt(t)) => text_precedes(s, t),
            (PartialValueView::Cred(s), PartialValueView::Cred(t)) => text_precedes(s, t),
            (PartialValueView::SshKey(s), PartialValueView::SshKey(t)) => text_precedes(s, t),
            (PartialValueView::Nsuniqueid(s), PartialValueView::Nsuniqueid(t)) => text_precedes(s, t),
            _ => false,
        },
{
}

/// A value comes before all values of kinds that come later.
pub proof fn law_order_of_kinds(p: PartialValueView, q: PartialValueView)
    ensures
        p is Utf8 && (q is Iutf8 || q is Iname || q is Uuid || q is Bool || q is Syntax || q is Index || q is Refer || q is JsonFilt || q is Cred || q is SshKey || q is RadiusCred || q is Spn || q is Uint32 || q is Cid || q is Nsuniqueid) ==> p.precedes(q) && !q.precedes(p),
        p is Iutf8 && (q is Iname || q is Uuid || q is Bool || q is Syntax || q is Index || q is Refer || q is JsonFilt || q is Cred || q is SshKey || q is RadiusCred || q is Spn || q is Uint32 || q is Cid || q is Nsuniqueid) ==> p.precedes(q) && !q.precedes(p),
        p is Iname && (q is Uuid || q is Bool || q is Syntax || q is Index || q is Refer || q is JsonFilt || q is Cred || q is SshKey || q is RadiusCred || q is Spn || q is Uint32 || q is Cid || q is Nsuniqueid) ==> p.precedes(q) && !q.precedes(p),
        p is Uuid && (q is Bool || q is Syntax || q is Index || q is Refer || q is JsonFilt || q is Cred || q is SshKey || q is RadiusCred || q is Spn || q is Uint32 || q is Cid || q is Nsuniqueid) ==> p.precedes(q) && !q.precedes(p),
        p is Bool && (q is Syntax || q is Index || q is Refer || q is JsonFilt || q is Cred || q is SshKey || q is RadiusCred || q is Spn || q is Uint32 || q is Cid || q is Nsuniqueid) ==> p.precedes(q) && !q.precedes(p),
        p is Syntax && (q is Index || q is Refer || q is JsonFilt || q is Cred || q is SshKey || q is RadiusCred || q is Spn || q is Uint32 || q is Cid || q is Nsuniqueid) ==> p.precedes(q) && !q.precedes(p),
        p is Index && (q is Refer || q is JsonFilt || q is Cred || q is SshKey || q is RadiusCred || q is Spn || q is Uint32 || q is Cid || q is Nsuniqueid) ==> p.precedes(q) && !q.precedes(p),
        p is Refer && (q is JsonFilt || q is Cred || q is SshKey || q is RadiusCred || q is Spn || q is Uint32 || q is Cid || q is Nsuniqueid) ==> p.precedes(q) && !q.precedes(p),
        p is JsonFilt && (q is Cred || q is SshKey || q is RadiusCred || q is Spn || q is Uint32 || q is Cid || q is Nsuniqueid) ==> p.precedes(q) && !q.precedes(p),
        p is Cred && (q is SshKey || q is RadiusCred || q is Spn || q is Uint32 || q is Cid || q is Nsuniqueid) ==> p.precedes(q) && !q.precedes(p),
        p is SshKey && (q is RadiusCred || q is Spn || q is Uint32 || q is Cid || q is Nsuniqueid) ==> p.precedes(q) && !q.precedes(p),
        p is RadiusCred && (q is Spn || q is Uint32 || q is Cid || q is Nsuniqueid) ==> p.precedes(q) && !q.precedes(p),
        p is Spn && (q is Uint32 || q is Cid || q is Nsuniqueid) ==> p.precedes(q) && !q.precedes(p),
        p is Uint32 && (q is Cid || q is Nsuniqueid) ==> p.precedes(q) && !q.precedes(p),
        p is Cid && (q is Nsuniqueid) ==> p.precedes(q) && !q.precedes(p),
{
}

/// A text comes before another if and only if there is a place up to which they
/// agree, and at which it ends and the other does not, or has the lesser character.
pub proof fn law_text_order(s: Seq<char>, t: Seq<char>)
    ensures
        text_precedes(s, t) <==> exists|k: int|
            0 <= k <= s.len() && k < t.len() && #[trigger] s.take(k) == t.take(k) && (k == s.len()
                || s[k] < t[k]),
    decreases s.len(),
{
    if text_precedes(s, t) {
        if s.len() == 0 {
            assert(s.take(0) =~= t.take(0));
        } else if s[0] == t[0] {
            let x = s.drop_first();
            let y = t.drop_first();
            law_text_order(x, y);
            let k = choose|k: int|
                0 <= k <= x.len() && k < y.len() && #[trigger] x.take(k) == y.take(k) && (k
                    == x.len() || x[k] < y[k]);
            assert forall|i: int| 0 <= i < k + 1 implies #[trigger] s[i] == t[i] by {
                if i > 0 {
                    assert(x.take(k)[i - 1] == s[i]);
                    assert(y.take(k)[i - 1] == t[i]);
                }
            }
            assert(s.take(k + 1) =~= t.take(k + 1));
        } else {
            assert(s.take(0) =~= t.take(0));
        }
    }
    if exists|k: int|
        0 <= k <= s.len() && k < t.len() && #[trigger] s.take(k) == t.take(k) && (k == s.len()
            || s[k] < t[k]) {
        let k = choose|k: int|
            0 <= k <= s.len() && k < t.len() && #[trigger] s.take(k) == t.take(k) && (k == s.len()
                || s[k] < t[k]);
        assert forall|i: int| 0 <= i < k implies #[trigger] s[i] == t[i] by {
            assert(s.take(k)[i] == s[i]);
            assert(t.take(k)[i] == t[i]);
        }
        crate::order::lemma_text_precedes_at(s, t, k);
    }
}

/// A value is put into a set if and only if no value of the set equals it. Then the
/// set holds it besides what it held, in ascending order; else it stays as it was.
pub proof fn law_set_insert(values: Seq<ValueView>, v: ValueView, w: ValueView)
    requires
        ascending(values),
    ensures
        ascending(crate::value::inserted(values, v)),
        (exists|i: int| 0 <= i < values.len() && (#[trigger] values[i]).partial == v.partial)
            ==> crate::value::inserted(values, v) == values,
        !(exists|i: int| 0 <= i < values.len() && (#[trigger] values[i]).partial == v.partial) ==> (
        crate::value::inserted(values, v).contains(w) <==> values.contains(w) || w == v),
{
    law_inserted(values, v);
    assert(crate::value::inserted(values, v).contains(w) <==> values.contains(w) || (w == v
        && !crate::value::holds(values, v.partial)));
}

/// The names of the ways to index, in upper case.
pub proof fn law_index_names(s: Seq<char>)
    ensures
        IndexType::named(s) == Some(IndexType::EQUALITY) <==> s == "EQUALITY"@,
        IndexType::named(s) == Some(IndexType::PRESENCE) <==> s == "PRESENCE"@,
        IndexType::named(s) == Some(IndexType::SUBSTRING) <==> s == "SUBSTRING"@,
{
    reveal_strlit("EQUALITY");
    reveal_strlit("PRESENCE");
    reveal_strlit("SUBSTRING");
    assert("EQUALITY"@[0] != "PRESENCE"@[0]);
    assert("SUBSTRING"@.len() == 9 && "PRESENCE"@.len() == 8 && "EQUALITY"@.len() == 8);
}

/// The names of the kinds of data, in upper case.
pub proof fn law_syntax_names(s: Seq<char>)
    ensures
        SyntaxType::named(s) == Some(SyntaxType::UTF8STRING) <==> s == "UTF8STRING"@,
        SyntaxType::named(s) == Some(SyntaxType::UTF8STRING_INSENSITIVE) <==> s == "UTF8STRING_INSENSITIVE"@,
        SyntaxType::named(s) == Some(SyntaxType::UTF8STRING_INAME) <==> s == "UTF8STRING_INAME"@,
        SyntaxType::named(s) == Some(SyntaxType::UUID) <==> s == "UUID"@,
        SyntaxType::named(s) == Some(SyntaxType::BOOLEAN) <==> s == "BOOLEAN"@,
        SyntaxType::named(s) == Some(SyntaxType::SYNTAX_ID) <==> s == "SYNTAX_ID"@,
        SyntaxType::named(s) == Some(SyntaxType::INDEX_ID) <==> s == "INDEX_ID"@,
        SyntaxType::named(s) == Some(SyntaxType::REFERENCE_UUID) <==> s == "REFERENCE_UUID"@,
        SyntaxType::named(s) == Some(SyntaxType::JSON_FILTER) <==> s == "JSON_FILTER"@,
        SyntaxType::named(s) == Some(SyntaxType::CREDENTIAL) <==> s == "CREDENTIAL"@,
        SyntaxType::named(s) == Some(SyntaxType::RADIUS_UTF8STRING) <==> s == "RADIUS_UTF8STRING"@,
        SyntaxType::named(s) == Some(SyntaxType::SSHKEY) <==> s == "SSHKEY"@,
        SyntaxType::named(s) == Some(SyntaxType::SERVICE_PRINCIPLE_NAME) <==> s == "SERVICE_PRINCIPLE_NAME"@,
        SyntaxType::named(s) == Some(SyntaxType::UINT32) <==> s == "UINT32"@,
        SyntaxType::named(s) == Some(SyntaxType::CID) <==> s == "CID"@,
        SyntaxType::named(s) == Some(SyntaxType::NSUNIQUEID) <==> s == "NSUNIQUEID"@,
{
    reveal_strlit("UTF8STRING");
    reveal_strlit("UTF8STRING_INSENSITIVE");
    reveal_strlit("UTF8STRING_INAME");
    reveal_strlit("UUID");
    reveal_strlit("BOOLEAN");
    reveal_strlit("SYNTAX_ID");
    reveal_strlit("INDEX_ID");
    reveal_strlit("REFERENCE_UUID");
    reveal_strlit("JSON_FILTER");
    reveal_strlit("CREDENTIAL");
    reveal_strlit("RADIUS_UTF8STRING");
    reveal_strlit("SSHKEY");
    reveal_strlit("SERVICE_PRINCIPLE_NAME");
    reveal_strlit("UINT32");
    reveal_strlit("CID");
    reveal_strlit("NSUNIQUEID");
    assert("UTF8STRING"@.len() == 10);
    assert("UTF8STRING_INSENSITIVE"@.len() == 22);
    assert("UTF8STRING_INAME"@.len() == 16);
    assert("UUID"@.len() == 4);
    assert("BOOLEAN"@.len() == 7);
    assert("SYNTAX_ID"@.len() == 9);
    assert("INDEX_ID"@.len() == 8);
    assert("REFERENCE_UUID"@.len() == 14);
    assert("JSON_FILTER"@.len() == 11);
    assert("CREDENTIAL"@.len() == 10);
    assert("RADIUS_UTF8STRING"@.len() == 17);
    assert("SSHKEY"@.len() == 6);
    assert("SERVICE_PRINCIPLE_NAME"@.len() == 22);
    assert("UINT32"@.len() == 6);
    assert("CID"@.len() == 3);
    assert("NSUNIQUEID"@.len() == 10);
    assert("UTF8STRING"@[0] == 'U');
    assert("CREDENTIAL"@[0] == 'C');
    assert("NSUNIQUEID"@[0] == 'N');
    assert("UTF8STRING_INSENSITIVE"@[0] == 'U');
    assert("SERVICE_PRINCIPLE_NAME"@[0] == 'S');
    assert("SSHKEY"@[0] == 'S');
    assert("UINT32"@[0] == 'U');
}

/// The contents of a value are of its own kind, and are what it holds.
pub proof fn law_contents(p: PartialValue)
    ensures
        match p {
            PartialValue::Utf8(s) => p@ == PartialValueView::Utf8(s@),
            PartialValue::Iutf8(s) => p@ == PartialValueView::Iutf8(s@),
            PartialValue::Iname(s) => p@ == PartialValueView::Iname(s@),
            PartialValue::Uuid(u) => p@ == PartialValueView::Uuid(
                crate::foreign::uuid_number(u),
            ),
            PartialValue::Bool(x) => p@ == PartialValueView::Bool(x),
            PartialValue::Syntax(x) => p@ == PartialValueView::Syntax(x),
            PartialValue::Index(x) => p@ == PartialValueView::Index(x),
            PartialValue::Refer(u) => p@ == PartialValueView::Refer(
                crate::foreign::uuid_number(u),
            ),
            PartialValue::JsonFilt(s) => p@ == PartialValueView::JsonFilt(s@),
            PartialValue::Cred(s) => p@ == PartialValueView::Cred(s@),
            PartialValue::SshKey(s) => p@ == PartialValueView::SshKey(s@),
            PartialValue::RadiusCred => p@ == PartialValueView::RadiusCred,
            PartialValue::Spn(s, t) => p@ == PartialValueView::Spn(s@, t@),
            PartialValue::Uint32(x) => p@ == PartialValueView::Uint32(x),
            PartialValue::Cid(x) => p@ == PartialValueView::Cid(x),
            PartialValue::Nsuniqueid(s) => p@ == PartialValueView::Nsuniqueid(s@),
        },
{
}

/// The name of a way to index, in any case, is read as that, and nothing else is.
pub proof fn law_index_is_read(s: &str, r: Result<IndexType, ()>)
    requires
        call_ensures(IndexType::try_from, (s,), r),
    ensures
        r == Ok::<IndexType, ()>(IndexType::EQUALITY) <==> crate::text::upper(s@) == "EQUALITY"@,
        r == Ok::<IndexType, ()>(IndexType::PRESENCE) <==> crate::text::upper(s@) == "PRESENCE"@,
        r == Ok::<IndexType, ()>(IndexType::SUBSTRING) <==> crate::text::upper(s@)
            == "SUBSTRING"@,
{
    law_index_names(crate::text::upper(s@));
}

/// The name of a kind of data, in any case, is read as that, and nothing else is.
pub proof fn law_syntax_is_read(s: &str, r: Result<SyntaxType, ()>)
    requires
        call_ensures(SyntaxType::try_from, (s,), r),
    ensures
        r == Ok::<SyntaxType, ()>(SyntaxType::UTF8STRING) <==> crate::text::upper(s@)
            == "UTF8STRING"@,
        r == Ok::<SyntaxType, ()>(SyntaxType::UTF8STRING_INSENSITIVE) <==> crate::text::upper(s@)
            == "UTF8STRING_INSENSITIVE"@,
        r == Ok::<SyntaxType, ()>(SyntaxType::UTF8STRING_INAME) <==> crate::text::upper(s@)
            == "UTF8STRING_INAME"@,
        r == Ok::<SyntaxType, ()>(SyntaxType::UUID) <==> crate::text::upper(s@)
            == "UUID"@,
        r == Ok::<SyntaxType, ()>(SyntaxType::BOOLEAN) <==> crate::text::upper(s@)
            == "BOOLEAN"@,
        r == Ok::<SyntaxType, ()>(SyntaxType::SYNTAX_ID) <==> crate::text::upper(s@)
            == "SYNTAX_ID"@,
        r == Ok::<SyntaxType, ()>(SyntaxType::INDEX_ID) <==> crate::text::upper(s@)
            == "INDEX_ID"@,
        r == Ok::<SyntaxType, ()>(SyntaxType::REFERENCE_UUID) <==> crate::text::upper(s@)
            == "REFERENCE_UUID"@,
        r == Ok::<SyntaxType, ()>(SyntaxType::JSON_FILTER) <==> crate::text::upper(s@)
            == "JSON_FILTER"@,
        r == Ok::<SyntaxType, ()>(SyntaxType::CREDENTIAL) <==> crate::text::upper(s@)
            == "CREDENTIAL"@,
        r == Ok::<SyntaxType, ()>(SyntaxType::RADIUS_UTF8STRING) <==> crate::text::upper(s@)
            == "RADIUS_UTF8STRING"@,
        r == Ok::<SyntaxType, ()>(SyntaxType::SSHKEY) <==> crate::text::upper(s@)
            == "SSHKEY"@,
        r == Ok::<SyntaxType, ()>(SyntaxType::SERVICE_PRINCIPLE_NAME) <==> crate::text::upper(s@)
            == "SERVICE_PRINCIPLE_NAME"@,
        r == Ok::<SyntaxType, ()>(SyntaxType::UINT32) <==> crate::text::upper(s@)
            == "UINT32"@,
        r == Ok::<SyntaxType, ()>(SyntaxType::CID) <==> crate::text::upper(s@)
            == "CID"@,
        r == Ok::<SyntaxType, ()>(SyntaxType::NSUNIQUEID) <==> crate::text::upper(s@)
            == "NSUNIQUEID"@,
{
    law_syntax_names(crate::text::upper(s@));
}

/// A text of ASCII characters in upper case has its small letters as capital letters,
/// and all else as it is.
pub proof fn law_upper(s: Seq<char>)
    requires
        forall|i: int| 0 <= i < s.len() ==> (#[trigger] s[i] as u32) < 0x80,
    ensures
        crate::text::upper(s).len() == s.len(),
        forall|i: int|
            0 <= i < s.len() ==> (#[trigger] crate::text::upper(s)[i]) as u32 == (if 'a' <= s[i]
                <= 'z' {
                s[i] as u32 - 0x20
            } else {
                s[i] as u32 as int
            }),
{
}

} // verus!
