//! What it is for an entry to comply with a schema.
use crate::entry::Entry;
use crate::error::SchemaError;
use crate::schema::SchemaTransaction;
use vstd::prelude::*;

verus! {

use crate::class::SchemaClassView;
use crate::compliance::{
    absent, allowed, attribute_fault, classes_named, fault, first_fault, is_extensible, required,
    unknown_classes,
};
use crate::consistency::{lemma_filter_map_elements, lemma_flat_map_elements};
use crate::entry::{ava, names_in_order, text_list, AttrsView};
use crate::error::SchemaErrorView;
use crate::laws_of_values::{fits, law_texts, lemma_accepts};
use crate::order::lemma_text_irreflexive;
use crate::state::SchemaView;
use crate::tables::{Attributes, Classes};
use crate::value::{PartialValueView, ValueView};

/// Whether an entry has an attribute.
pub open spec fn bears(attrs: AttrsView, n: Seq<char>) -> bool {
    exists|i: int| 0 <= i < attrs.len() && (#[trigger] attrs[i]).0 == n
}

/// Whether an attribute of an entry has a value.
pub open spec fn holds_value(attrs: AttrsView, n: Seq<char>, p: PartialValueView) -> bool {
    exists|i: int, j: int|
        0 <= i < attrs.len() && attrs[i].0 == n && 0 <= j < attrs[i].1.len() && (
        #[trigger] attrs[i].1[j]).partial == p
}

/// Whether an attribute of an entry has a text.
pub open spec fn says(attrs: AttrsView, n: Seq<char>, s: Seq<char>) -> bool {
    ||| holds_value(attrs, n, PartialValueView::Utf8(s))
    ||| holds_value(attrs, n, PartialValueView::Iutf8(s))
    ||| holds_value(attrs, n, PartialValueView::Iname(s))
}

/// Whether a class names an attribute among those that an entry must have.
pub open spec fn demanded_by(c: SchemaClassView, n: Seq<char>) -> bool {
    c.systemmust.contains(n) || c.must.contains(n)
}

/// Whether a class names an attribute among those that an entry must or may have.
pub open spec fn named_by(c: SchemaClassView, n: Seq<char>) -> bool {
    c.systemmust.contains(n) || c.must.contains(n) || c.systemmay.contains(n) || c.may.contains(n)
}

/// Whether an attribute of an entry is as it should be: known, storable and with
/// values that fit it; and named by one of the classes of the entry, unless one of
/// these is the class `extensibleobject`.
pub open spec fn stands_well(
    attr: (Seq<char>, Seq<ValueView>),
    attrs: AttrsView,
    schema: SchemaView,
) -> bool {
    &&& schema.attributes.contains_key(attr.0)
    &&& !schema.attributes[attr.0].phantom
    &&& fits(schema.attributes[attr.0], attr.1)
    &&& !holds_value(attrs, "class"@, PartialValueView::Iutf8("extensibleobject"@)) ==> exists|
        c: Seq<char>,
    | #[trigger]
        says(attrs, "class"@, c) && named_by(schema.classes[c], attr.0)
}

/// What an entry has by a name is what stands in it under that name.
pub(crate) proof fn lemma_ava(attrs: AttrsView, n: Seq<char>)
    requires
        names_in_order(attrs),
    ensures
        ava(attrs, n) is Some <==> bears(attrs, n),
        forall|i: int|
            0 <= i < attrs.len() && (#[trigger] attrs[i]).0 == n ==> ava(attrs, n) == Some(
                attrs[i].1,
            ),
    decreases attrs.len(),
{
    if attrs.len() > 0 {
        let rest = attrs.drop_first();
        assert forall|i: int, j: int| 0 <= i < j < rest.len() implies crate::order::text_precedes(
            (#[trigger] rest[i]).0,
            (#[trigger] rest[j]).0,
        ) by {
            assert(rest[i] == attrs[i + 1] && rest[j] == attrs[j + 1]);
        }
        lemma_ava(rest, n);
        if attrs[0].0 != n {
            if bears(rest, n) {
                let i = choose|i: int| 0 <= i < rest.len() && (#[trigger] rest[i]).0 == n;
                assert(attrs[i + 1].0 == n);
            }
            if bears(attrs, n) {
                let i = choose|i: int| 0 <= i < attrs.len() && (#[trigger] attrs[i]).0 == n;
                assert(rest[i - 1].0 == n);
            }
        }
        lemma_text_irreflexive(n);
        assert forall|i: int| 0 <= i < attrs.len() && (#[trigger] attrs[i]).0 == n implies ava(
            attrs,
            n,
        ) == Some(attrs[i].1) by {
            if i > 0 {
                assert(rest[i - 1] == attrs[i]);
                assert(crate::order::text_precedes(attrs[0].0, attrs[i].0));
            }
        }
    }
}

/// The texts of an attribute are what it says.
proof fn lemma_says(attrs: AttrsView, n: Seq<char>, s: Seq<char>)
    requires
        names_in_order(attrs),
    ensures
        text_list(attrs, n).contains(s) <==> says(attrs, n, s),
{
    lemma_ava(attrs, n);
    let f = |v: ValueView| v.partial.text();
    if bears(attrs, n) {
        let i = choose|i: int| 0 <= i < attrs.len() && (#[trigger] attrs[i]).0 == n;
        let values = attrs[i].1;
        lemma_filter_map_elements(values, f, s);
        if text_list(attrs, n).contains(s) {
            let j = choose|j: int| 0 <= j < values.len() && f(#[trigger] values[j]) == Some(s);
            law_texts(values[j].partial, s);
            assert(attrs[i].1[j].partial == values[j].partial);
        }
    }
    if says(attrs, n, s) {
        let (i, j) = choose|i: int, j: int|
            0 <= i < attrs.len() && attrs[i].0 == n && 0 <= j < attrs[i].1.len() && ((
            #[trigger] attrs[i].1[j]).partial == PartialValueView::Utf8(s) || attrs[i].1[j].partial
                == PartialValueView::Iutf8(s) || attrs[i].1[j].partial == PartialValueView::Iname(
                s,
            ));
        assert(attrs[i].0 == n);
        lemma_filter_map_elements(attrs[i].1, f, s);
        law_texts(attrs[i].1[j].partial, s);
        assert(f(attrs[i].1[j]) == Some(s));
    }
}

/// An entry is extensible if its class says so.
proof fn lemma_extensible(attrs: AttrsView)
    requires
        names_in_order(attrs),
    ensures
        is_extensible(attrs) <==> holds_value(
            attrs,
            "class"@,
            PartialValueView::Iutf8("extensibleobject"@),
        ),
{
    let p = PartialValueView::Iutf8("extensibleobject"@);
    lemma_ava(attrs, "class"@);
    if is_extensible(attrs) {
        let i = choose|i: int| 0 <= i < attrs.len() && (#[trigger] attrs[i]).0 == "class"@;
        let j = choose|j: int| 0 <= j < attrs[i].1.len() && (#[trigger] attrs[i].1[j]).partial == p;
        assert(attrs[i].1[j].partial == p);
    }
    if holds_value(attrs, "class"@, p) {
        let (i, j) = choose|i: int, j: int|
            0 <= i < attrs.len() && attrs[i].0 == "class"@ && 0 <= j < attrs[i].1.len() && (
            #[trigger] attrs[i].1[j]).partial == p;
        assert(attrs[i].0 == "class"@);
    }
}

/// What classes demand and allow together is what any of them demands and allows.
proof fn lemma_gathered(names: Seq<Seq<char>>, classes: Classes, n: Seq<char>)
    ensures
        required(classes_named(names, classes)).contains(n) <==> exists|c: Seq<char>| #[trigger]
            names.contains(c) && demanded_by(classes[c], n),
        allowed(classes_named(names, classes)).contains(n) <==> exists|c: Seq<char>| #[trigger]
            names.contains(c) && named_by(classes[c], n),
{
    let list = classes_named(names, classes);
    let must = |c: SchemaClassView| c.demands();
    let can = |c: SchemaClassView| c.allows();
    lemma_flat_map_elements(list, must, n);
    lemma_flat_map_elements(list, can, n);
    assert forall|c: SchemaClassView| c.demands().contains(n) == #[trigger] demanded_by(c, n) by {
        lemma_in_either(c.systemmust, c.must, n);
    }
    assert forall|c: SchemaClassView| c.allows().contains(n) == #[trigger] named_by(c, n) by {
        lemma_in_either(c.systemmust, c.must, n);
        lemma_in_either(c.systemmust + c.must, c.systemmay, n);
        lemma_in_either(c.systemmust + c.must + c.systemmay, c.may, n);
    }
    if required(list).contains(n) {
        let i = choose|i: int| 0 <= i < list.len() && must(#[trigger] list[i]).contains(n);
        assert(names.contains(names[i]));
        assert(demanded_by(classes[names[i]], n));
    }
    if allowed(list).contains(n) {
        let i = choose|i: int| 0 <= i < list.len() && can(#[trigger] list[i]).contains(n);
        assert(names.contains(names[i]));
        assert(named_by(classes[names[i]], n));
    }
    if exists|c: Seq<char>| #[trigger] names.contains(c) && demanded_by(classes[c], n) {
        let c = choose|c: Seq<char>| #[trigger] names.contains(c) && demanded_by(classes[c], n);
        let i = choose|i: int| 0 <= i < names.len() && names[i] == c;
        assert(must(list[i]).contains(n));
    }
    if exists|c: Seq<char>| #[trigger] names.contains(c) && named_by(classes[c], n) {
        let c = choose|c: Seq<char>| #[trigger] names.contains(c) && named_by(classes[c], n);
        let i = choose|i: int| 0 <= i < names.len() && names[i] == c;
        assert(can(list[i]).contains(n));
    }
}

/// What two lists have, one after the other, is what either has.
pub(crate) proof fn lemma_in_either<A>(s: Seq<A>, t: Seq<A>, a: A)
    ensures
        (s + t).contains(a) <==> s.contains(a) || t.contains(a),
{
    let st = s + t;
    if st.contains(a) {
        let i = choose|i: int| 0 <= i < st.len() && st[i] == a;
        if i < s.len() {
            assert(s[i] == a);
        } else {
            assert(t[i - s.len()] == a);
        }
    }
    if s.contains(a) {
        let i = choose|i: int| 0 <= i < s.len() && s[i] == a;
        assert(st[i] == a);
    }
    if t.contains(a) {
        let i = choose|i: int| 0 <= i < t.len() && t[i] == a;
        assert(st[s.len() + i] == a);
    }
}

/// A part of a list that a property picks out is empty if and only if nothing in
/// the list has the property.
proof fn lemma_none_left<A>(s: Seq<A>, p: spec_fn(A) -> bool)
    ensures
        s.filter(p).len() == 0 <==> forall|a: A| #[trigger] s.contains(a) ==> !p(a),
        forall|a: A| #[trigger] s.filter(p).contains(a) <==> s.contains(a) && p(a),
{
    assert forall|a: A| #[trigger] s.filter(p).contains(a) <==> s.contains(a) && p(a) by {
        if s.filter(p).contains(a) {
            let i = choose|i: int| 0 <= i < s.filter(p).len() && s.filter(p)[i] == a;
            s.lemma_filter_pred(p, i);
            s.lemma_filter_contains_rev(p, a);
        }
        if s.contains(a) && p(a) {
            let i = choose|i: int| 0 <= i < s.len() && s[i] == a;
            s.lemma_filter_contains(p, i);
        }
    }
    if s.filter(p).len() > 0 {
        assert(s.filter(p).contains(s.filter(p)[0]));
    } else {
        assert forall|a: A| #[trigger] s.contains(a) implies !p(a) by {
            if p(a) {
                assert(s.filter(p).contains(a));
            }
        }
    }
}

/// There is nothing wrong with an attribute of an entry if and only if it stands
/// well.
proof fn lemma_attribute_fault(
    attr: (Seq<char>, Seq<ValueView>),
    attrs: AttrsView,
    schema: SchemaView,
    may: Option<Seq<Seq<char>>>,
)
    requires
        names_in_order(attrs),
        may == (if is_extensible(attrs) {
            None
        } else {
            Some(allowed(classes_named(text_list(attrs, "class"@), schema.classes)))
        }),
    ensures
        attribute_fault(attr, may, schema.attributes) is None <==> stands_well(attr, attrs, schema),
        may is Some ==> (may->0.contains(attr.0) <==> exists|c: Seq<char>| #[trigger]
            says(attrs, "class"@, c) && named_by(schema.classes[c], attr.0)),
{
    let names = text_list(attrs, "class"@);
    lemma_extensible(attrs);
    lemma_gathered(names, schema.classes, attr.0);
    assert forall|c: Seq<char>| #[trigger] names.contains(c) <==> says(attrs, "class"@, c) by {
        lemma_says(attrs, "class"@, c);
    }
    assert forall|c: Seq<char>| #[trigger] says(attrs, "class"@, c) <==> names.contains(c) by {
        lemma_says(attrs, "class"@, c);
    }
    if schema.attributes.contains_key(attr.0) {
        lemma_accepts(schema.attributes[attr.0], attr.1);
    }
    if exists|c: Seq<char>| #[trigger] names.contains(c) && named_by(schema.classes[c], attr.0) {
        let c = choose|c: Seq<char>| #[trigger]
            names.contains(c) && named_by(schema.classes[c], attr.0);
        assert(says(attrs, "class"@, c));
    }
    if exists|c: Seq<char>| #[trigger]
        says(attrs, "class"@, c) && named_by(schema.classes[c], attr.0) {
        let c = choose|c: Seq<char>| #[trigger]
            says(attrs, "class"@, c) && named_by(schema.classes[c], attr.0);
        assert(names.contains(c));
    }
}

/// The first fault is that of the first attribute that has one.
proof fn lemma_first_fault_at(
    attrs: AttrsView,
    may: Option<Seq<Seq<char>>>,
    attributes: Attributes,
) -> (k: int)
    ensures
        0 <= k <= attrs.len(),
        forall|j: int|
            0 <= j < k ==> attribute_fault(#[trigger] attrs[j], may, attributes) is None,
        k == attrs.len() ==> first_fault(attrs, may, attributes) is None,
        k < attrs.len() ==> first_fault(attrs, may, attributes) is Some && first_fault(
            attrs,
            may,
            attributes,
        ) == attribute_fault(attrs[k], may, attributes),
    decreases attrs.len(),
{
    if attrs.len() == 0 || attribute_fault(attrs[0], may, attributes) is Some {
        0
    } else {
        let rest = attrs.drop_first();
        let k = lemma_first_fault_at(rest, may, attributes);
        assert forall|j: int| 0 <= j < k + 1 implies attribute_fault(
            #[trigger] attrs[j],
            may,
            attributes,
        ) is None by {
            if j > 0 {
                assert(rest[j - 1] == attrs[j]);
            }
        }
        k + 1
    }
}

/// An entry complies with a schema if and only if: it has an identifier; it has a
/// class; its classes are known; all attributes that they name are known; it has
/// what they demand; and each of its attributes stands well.
///
/// An entry that complies is given back as it is.
pub proof fn law_entry_complies<T: SchemaTransaction>(
    e: Entry,
    txn: T,
    r: Result<Entry, SchemaError>,
)
    requires
        names_in_order(e@),
        call_ensures(Entry::validate::<T>, (e, &txn), r),
    ensures
        r is Ok <==> {
            &&& bears(e@, "uuid"@)
            &&& exists|c: Seq<char>| says(e@, "class"@, c)
            &&& forall|c: Seq<char>| #[trigger]
                says(e@, "class"@, c) ==> txn.schema().classes.contains_key(c)
            &&& forall|c: Seq<char>, n: Seq<char>|
                #![trigger says(e@, "class"@, c), named_by(txn.schema().classes[c], n)]
                says(e@, "class"@, c) && named_by(txn.schema().classes[c], n)
                    ==> txn.schema().attributes.contains_key(n)
            &&& forall|c: Seq<char>, n: Seq<char>|
                #![trigger says(e@, "class"@, c), demanded_by(txn.schema().classes[c], n)]
                says(e@, "class"@, c) && demanded_by(txn.schema().classes[c], n) ==> bears(e@, n)
            &&& forall|i: int|
                0 <= i < e@.len() ==> stands_well(#[trigger] e@[i], e@, txn.schema())
        },
        r matches Ok(x) ==> x@ == e@,
{
    lemma_complies(e@, txn.schema());
}

/// There is nothing wrong with an entry if and only if it is all that an entry
/// should be.
proof fn lemma_complies(attrs: AttrsView, schema: SchemaView)
    requires
        names_in_order(attrs),
    ensures
        fault(attrs, schema) is None <==> {
            &&& bears(attrs, "uuid"@)
            &&& exists|c: Seq<char>| says(attrs, "class"@, c)
            &&& forall|c: Seq<char>| #[trigger]
                says(attrs, "class"@, c) ==> schema.classes.contains_key(c)
            &&& forall|c: Seq<char>, n: Seq<char>|
                #![trigger says(attrs, "class"@, c), named_by(schema.classes[c], n)]
                says(attrs, "class"@, c) && named_by(schema.classes[c], n)
                    ==> schema.attributes.contains_key(n)
            &&& forall|c: Seq<char>, n: Seq<char>|
                #![trigger says(attrs, "class"@, c), demanded_by(schema.classes[c], n)]
                says(attrs, "class"@, c) && demanded_by(schema.classes[c], n) ==> bears(attrs, n)
            &&& forall|i: int|
                0 <= i < attrs.len() ==> stands_well(#[trigger] attrs[i], attrs, schema)
        },
{
    lemma_stages(attrs, schema);
    let may = if is_extensible(attrs) {
        None
    } else {
        Some(allowed(classes_named(text_list(attrs, "class"@), schema.classes)))
    };
    let k = lemma_first_fault_at(attrs, may, schema.attributes);
    assert forall|i: int| 0 <= i < attrs.len() implies (attribute_fault(
        #[trigger] attrs[i],
        may,
        schema.attributes,
    ) is None <==> stands_well(attrs[i], attrs, schema)) by {
        lemma_attribute_fault(attrs[i], attrs, schema, may);
    }
    if k < attrs.len() {
        assert(!stands_well(attrs[k], attrs, schema));
    }
}

/// What each stage of the examination of an entry finds.
proof fn lemma_stages(attrs: AttrsView, schema: SchemaView)
    requires
        names_in_order(attrs),
    ensures
        ava(attrs, "uuid"@) is Some <==> bears(attrs, "uuid"@),
        text_list(attrs, "class"@).len() > 0 <==> exists|c: Seq<char>| says(attrs, "class"@, c),
        forall|c: Seq<char>| #[trigger]
            unknown_classes(text_list(attrs, "class"@), schema.classes).contains(c) <==> says(
                attrs,
                "class"@,
                c,
            ) && !schema.classes.contains_key(c),
        unknown_classes(text_list(attrs, "class"@), schema.classes).len() == 0 <==> forall|
            c: Seq<char>,
        | #[trigger]
            says(attrs, "class"@, c) ==> schema.classes.contains_key(c),
        (exists|n: Seq<char>| #[trigger]
            allowed(classes_named(text_list(attrs, "class"@), schema.classes)).contains(n)
                && !schema.attributes.contains_key(n)) <==> !(forall|c: Seq<char>, n: Seq<char>|
            #![trigger says(attrs, "class"@, c), named_by(schema.classes[c], n)]
            says(attrs, "class"@, c) && named_by(schema.classes[c], n)
                ==> schema.attributes.contains_key(n)),
        forall|n: Seq<char>| #[trigger]
            absent(
                required(classes_named(text_list(attrs, "class"@), schema.classes)),
                attrs,
            ).contains(n) <==> !bears(attrs, n) && exists|c: Seq<char>| #[trigger]
                says(attrs, "class"@, c) && demanded_by(schema.classes[c], n),
        absent(
            required(classes_named(text_list(attrs, "class"@), schema.classes)),
            attrs,
        ).len() == 0 <==> forall|c: Seq<char>, n: Seq<char>|
            #![trigger says(attrs, "class"@, c), demanded_by(schema.classes[c], n)]
            says(attrs, "class"@, c) && demanded_by(schema.classes[c], n) ==> bears(attrs, n),
{
    let names = text_list(attrs, "class"@);
    let list = classes_named(names, schema.classes);
    lemma_ava(attrs, "uuid"@);
    assert forall|c: Seq<char>| #[trigger] names.contains(c) <==> says(attrs, "class"@, c) by {
        lemma_says(attrs, "class"@, c);
    }
    assert forall|c: Seq<char>| #[trigger] says(attrs, "class"@, c) <==> names.contains(c) by {
        lemma_says(attrs, "class"@, c);
    }
    if names.len() > 0 {
        assert(names.contains(names[0]));
    }
    let unknown = |n: Seq<char>| !schema.classes.contains_key(n);
    lemma_none_left(names, unknown);
    assert forall|n: Seq<char>| #[trigger] ava(attrs, n) is None <==> !bears(attrs, n) by {
        lemma_ava(attrs, n);
    }
    let missing = |n: Seq<char>| ava(attrs, n) is None;
    lemma_none_left(required(list), missing);
    assert forall|n: Seq<char>| #[trigger] required(list).contains(n) <==> exists|c: Seq<char>|
        #[trigger] says(attrs, "class"@, c) && demanded_by(schema.classes[c], n) by {
        lemma_gathered(names, schema.classes, n);
        if required(list).contains(n) {
            let c = choose|c: Seq<char>| #[trigger]
                names.contains(c) && demanded_by(schema.classes[c], n);
            assert(says(attrs, "class"@, c));
        }
        if exists|c: Seq<char>| #[trigger]
            says(attrs, "class"@, c) && demanded_by(schema.classes[c], n) {
            let c = choose|c: Seq<char>| #[trigger]
                says(attrs, "class"@, c) && demanded_by(schema.classes[c], n);
            assert(names.contains(c));
        }
    }
    assert forall|n: Seq<char>| #[trigger] allowed(list).contains(n) <==> exists|c: Seq<char>|
        #[trigger] says(attrs, "class"@, c) && named_by(schema.classes[c], n) by {
        lemma_gathered(names, schema.classes, n);
        if allowed(list).contains(n) {
            let c = choose|c: Seq<char>| #[trigger]
                names.contains(c) && named_by(schema.classes[c], n);
            assert(says(attrs, "class"@, c));
        }
        if exists|c: Seq<char>| #[trigger]
            says(attrs, "class"@, c) && named_by(schema.classes[c], n) {
            let c = choose|c: Seq<char>| #[trigger]
                says(attrs, "class"@, c) && named_by(schema.classes[c], n);
            assert(names.contains(c));
        }
    }
    if exists|n: Seq<char>| #[trigger]
        allowed(list).contains(n) && !schema.attributes.contains_key(n) {
        let n = choose|n: Seq<char>| #[trigger]
            allowed(list).contains(n) && !schema.attributes.contains_key(n);
        let c = choose|c: Seq<char>| #[trigger]
            says(attrs, "class"@, c) && named_by(schema.classes[c], n);
        assert(says(attrs, "class"@, c) && named_by(schema.classes[c], n));
    }
    if !(forall|c: Seq<char>, n: Seq<char>|
        #![trigger says(attrs, "class"@, c), named_by(schema.classes[c], n)]
        says(attrs, "class"@, c) && named_by(schema.classes[c], n)
            ==> schema.attributes.contains_key(n)) {
        let (c, n) = choose|c: Seq<char>, n: Seq<char>|
            #![trigger says(attrs, "class"@, c), named_by(schema.classes[c], n)]
            says(attrs, "class"@, c) && named_by(schema.classes[c], n)
                && !schema.attributes.contains_key(n);
        assert(allowed(list).contains(n));
    }
    if absent(required(list), attrs).len() == 0 {
        assert forall|c: Seq<char>, n: Seq<char>|
            #![trigger says(attrs, "class"@, c), demanded_by(schema.classes[c], n)]
            says(attrs, "class"@, c) && demanded_by(schema.classes[c], n) implies bears(attrs, n) by {
            assert(required(list).contains(n));
            assert(!missing(n));
        }
    } else {
        let n = absent(required(list), attrs)[0];
        assert(absent(required(list), attrs).contains(n));
        assert(required(list).contains(n));
        let c = choose|c: Seq<char>| #[trigger]
            says(attrs, "class"@, c) && demanded_by(schema.classes[c], n);
        assert(says(attrs, "class"@, c) && demanded_by(schema.classes[c], n));
    }
}

/// An entry that does not comply is refused for what is wrong with it.
///
/// If it has no identifier, the error says so; else if it has no class, that; else
/// if classes are unknown, which; else if its classes name unknown attributes, that
/// the schema is corrupted; else if something that they demand is missing, what;
/// else the first attribute that does not stand well, and why.
pub proof fn law_entry_is_refused<T: SchemaTransaction>(
    e: Entry,
    txn: T,
    r: Result<Entry, SchemaError>,
)
    requires
        names_in_order(e@),
        call_ensures(Entry::validate::<T>, (e, &txn), r),
        r is Err,
    ensures
        ({
            let attrs = e@;
            let schema = txn.schema();
            let error = r->Err_0@;
            let known = forall|c: Seq<char>| #[trigger]
                says(attrs, "class"@, c) ==> schema.classes.contains_key(c);
            let sound = forall|c: Seq<char>, n: Seq<char>|
                #![trigger says(attrs, "class"@, c), named_by(schema.classes[c], n)]
                says(attrs, "class"@, c) && named_by(schema.classes[c], n)
                    ==> schema.attributes.contains_key(n);
            let complete = forall|c: Seq<char>, n: Seq<char>|
                #![trigger says(attrs, "class"@, c), demanded_by(schema.classes[c], n)]
                says(attrs, "class"@, c) && demanded_by(schema.classes[c], n) ==> bears(attrs, n);
            if !bears(attrs, "uuid"@) {
                error == SchemaErrorView::MissingMustAttribute(seq!["uuid"@])
            } else if !(exists|c: Seq<char>| says(attrs, "class"@, c)) {
                error == SchemaErrorView::NoClassFound
            } else if !known {
                &&& error matches SchemaErrorView::InvalidClass(list)
                &&& forall|c: Seq<char>| #[trigger]
                    list.contains(c) <==> says(attrs, "class"@, c) && !schema.classes.contains_key(
                        c,
                    )
            } else if !sound {
                error == SchemaErrorView::Corrupted
            } else if !complete {
                &&& error matches SchemaErrorView::MissingMustAttribute(list)
                &&& forall|n: Seq<char>| #[trigger]
                    list.contains(n) <==> !bears(attrs, n) && exists|c: Seq<char>| #[trigger]
                        says(attrs, "class"@, c) && demanded_by(schema.classes[c], n)
            } else {
                exists|k: int|
                    {
                        &&& 0 <= k < attrs.len()
                        &&& !stands_well(#[trigger] attrs[k], attrs, schema)
                        &&& forall|j: int|
                            0 <= j < k ==> stands_well(#[trigger] attrs[j], attrs, schema)
                        &&& error == (if !schema.attributes.contains_key(attrs[k].0) || (!holds_value(
                            attrs,
                            "class"@,
                            PartialValueView::Iutf8("extensibleobject"@),
                        ) && !(exists|c: Seq<char>| #[trigger]
                            says(attrs, "class"@, c) && named_by(
                                schema.classes[c],
                                attrs[k].0,
                            ))) {
                            SchemaErrorView::InvalidAttribute(attrs[k].0)
                        } else if schema.attributes[attrs[k].0].phantom {
                            SchemaErrorView::PhantomAttribute(attrs[k].0)
                        } else {
                            SchemaErrorView::InvalidAttributeSyntax(attrs[k].0)
                        })
                    }
            }
        }),
{
    let attrs = e@;
    let schema = txn.schema();
    lemma_stages(attrs, schema);
    lemma_extensible(attrs);
    let may = if is_extensible(attrs) {
        None
    } else {
        Some(allowed(classes_named(text_list(attrs, "class"@), schema.classes)))
    };
    let k = lemma_first_fault_at(attrs, may, schema.attributes);
    assert forall|i: int| 0 <= i < attrs.len() implies (attribute_fault(
        #[trigger] attrs[i],
        may,
        schema.attributes,
    ) is None <==> stands_well(attrs[i], attrs, schema)) by {
        lemma_attribute_fault(attrs[i], attrs, schema, may);
    }
    if k < attrs.len() {
        lemma_attribute_fault(attrs[k], attrs, schema, may);
        assert(!stands_well(attrs[k], attrs, schema));
    }
}

/// The unknown classes of an entry that is refused for them are listed in the order
/// in which the entry has them.
pub proof fn law_unknown_classes_in_order<T: SchemaTransaction>(
    e: Entry,
    txn: T,
    r: Result<Entry, SchemaError>,
    list: Seq<Seq<char>>,
    i: int,
)
    requires
        names_in_order(e@),
        call_ensures(Entry::validate::<T>, (e, &txn), r),
        r is Err,
        r->Err_0@ == SchemaErrorView::InvalidClass(list),
        0 <= i < e@.len(),
        e@[i].0 == "class"@,
    ensures
        list == e@[i].1.filter_map(
            |v: ValueView|
                match v.partial {
                    PartialValueView::Utf8(s) => Some(s),
                    PartialValueView::Iutf8(s) => Some(s),
                    PartialValueView::Iname(s) => Some(s),
                    _ => None,
                },
        ).filter(|n: Seq<char>| !txn.schema().classes.contains_key(n)),
{
    lemma_ava(e@, "class"@);
    let f = |v: ValueView| v.partial.text();
    let g = |v: ValueView|
        match v.partial {
            PartialValueView::Utf8(s) => Some(s),
            PartialValueView::Iutf8(s) => Some(s),
            PartialValueView::Iname(s) => Some(s),
            _ => None,
        };
    assert(f =~= g);
    let may = if is_extensible(e@) {
        None
    } else {
        Some(allowed(classes_named(text_list(e@, "class"@), txn.schema().classes)))
    };
    let k = lemma_first_fault_at(e@, may, txn.schema().attributes);
}

/// What an entry that is refused for it lacks is listed class by class, in the order
/// in which the entry has its classes, and of each first what the project demands and
/// then what an administrator demands.
pub proof fn law_missing_attributes_in_order<T: SchemaTransaction>(
    e: Entry,
    txn: T,
    r: Result<Entry, SchemaError>,
    list: Seq<Seq<char>>,
    i: int,
)
    requires
        names_in_order(e@),
        bears(e@, "uuid"@),
        call_ensures(Entry::validate::<T>, (e, &txn), r),
        r is Err,
        r->Err_0@ == SchemaErrorView::MissingMustAttribute(list),
        0 <= i < e@.len(),
        e@[i].0 == "class"@,
    ensures
        list == e@[i].1.filter_map(
            |v: ValueView|
                match v.partial {
                    PartialValueView::Utf8(s) => Some(s),
                    PartialValueView::Iutf8(s) => Some(s),
                    PartialValueView::Iname(s) => Some(s),
                    _ => None,
                },
        ).map_values(|n: Seq<char>| txn.schema().classes[n]).flat_map(
            |c: SchemaClassView| c.systemmust + c.must,
        ).filter(|n: Seq<char>| !bears(e@, n)),
{
    let attrs = e@;
    lemma_ava(attrs, "class"@);
    lemma_ava(attrs, "uuid"@);
    let f = |v: ValueView| v.partial.text();
    let g = |v: ValueView|
        match v.partial {
            PartialValueView::Utf8(s) => Some(s),
            PartialValueView::Iutf8(s) => Some(s),
            PartialValueView::Iname(s) => Some(s),
            _ => None,
        };
    assert(f =~= g);
    let must = |c: SchemaClassView| c.demands();
    let lists = |c: SchemaClassView| c.systemmust + c.must;
    assert(must =~= lists);
    let missing = |n: Seq<char>| ava(attrs, n) is None;
    let lacks = |n: Seq<char>| !bears(attrs, n);
    assert forall|n: Seq<char>| #[trigger] missing(n) == lacks(n) by {
        lemma_ava(attrs, n);
    }
    assert(missing =~= lacks);
    let may = if is_extensible(attrs) {
        None
    } else {
        Some(allowed(classes_named(text_list(attrs, "class"@), txn.schema().classes)))
    };
    let k = lemma_first_fault_at(attrs, may, txn.schema().attributes);
}

} // verus!
