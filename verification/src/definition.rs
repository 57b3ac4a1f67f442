//! The entries that define attributes and classes.
use crate::attribute::SchemaAttribute;
use crate::class::SchemaClass;
use crate::entry::Entry;
use crate::value::{IndexType, PartialValue, Value, ValueSet};
use vstd::prelude::*;

verus! {

use crate::attribute::{attribute_of, SchemaAttributeView};
use crate::class::{class_of, SchemaClassView};
use crate::entry::{
    attrs_views, ava, lemma_names_in_order, names_in_order, AttrsView, SealedEntryView,
};
use crate::foreign::uuid_number;
use crate::order::{lemma_text_irreflexive, lemma_text_precedes_at, text_precedes};
use crate::tables::{attribute_views, class_views};
use crate::text::{lower, texts};
use crate::value::{
    ascending, holds, inserted, law_inserted, law_order_is_unique, lemma_holds_inserted,
    PartialValueView, ValueView,
};

/// The set that comes of putting in values one after the other.
pub open spec fn collected(values: Seq<PartialValueView>) -> Seq<ValueView>
    decreases values.len(),
{
    if values.len() == 0 {
        Seq::empty()
    } else {
        inserted(collected(values.drop_last()), ValueView::plain(values.last()))
    }
}

/// The set of one value.
pub open spec fn only(p: PartialValueView) -> Seq<ValueView> {
    seq![ValueView::plain(p)]
}

/// The set of some texts, whose case does not matter.
pub open spec fn text_set(names: Seq<Seq<char>>) -> Seq<ValueView> {
    collected(names.map_values(|n: Seq<char>| PartialValueView::Iutf8(lower(n))))
}

/// The set of some ways to index.
pub open spec fn index_set(index: Seq<IndexType>) -> Seq<ValueView> {
    collected(index.map_values(|i: IndexType| PartialValueView::Index(i)))
}

/// The entry that defines an attribute.
pub open spec fn attribute_entry(a: SchemaAttributeView) -> AttrsView {
    seq![
        ("attributename"@, only(PartialValueView::Iutf8(lower(a.name)))),
        ("class"@, text_set(seq!["object"@, "system"@, "attributetype"@])),
        ("description"@, only(PartialValueView::Utf8(a.description))),
        ("index"@, index_set(a.index)),
        ("multivalue"@, only(PartialValueView::Bool(a.multivalue))),
        ("phantom"@, only(PartialValueView::Bool(a.phantom))),
        ("syntax"@, only(PartialValueView::Syntax(a.syntax))),
        ("unique"@, only(PartialValueView::Bool(a.unique))),
        ("uuid"@, only(PartialValueView::Uuid(uuid_number(a.uuid)))),
    ]
}

/// The entry that defines a class.
pub open spec fn class_entry(c: SchemaClassView) -> AttrsView {
    seq![
        ("class"@, text_set(seq!["object"@, "system"@, "classtype"@])),
        ("classname"@, only(PartialValueView::Iutf8(lower(c.name)))),
        ("description"@, only(PartialValueView::Utf8(c.description))),
        ("may"@, text_set(c.may)),
        ("must"@, text_set(c.must)),
        ("systemmay"@, text_set(c.systemmay)),
        ("systemmust"@, text_set(c.systemmust)),
        ("uuid"@, only(PartialValueView::Uuid(uuid_number(c.uuid)))),
    ]
}

/// Makes a set of one value.
fn set_of_one(p: PartialValue) -> (r: ValueSet)
    ensures
        r@ == only(p@),
{
    let mut r = ValueSet::new();
    r.insert(Value::new(p));
    assert(r@ =~= only(p@));
    r
}

/// Makes a set of texts.
fn set_of_texts(names: &Vec<String>) -> (r: ValueSet)
    ensures
        r@ == text_set(texts(names@)),
{
    let mut r = ValueSet::new();
    let ghost all = texts(names@).map_values(|n: Seq<char>| PartialValueView::Iutf8(lower(n)));
    let mut i: usize = 0;
    while i < names.len()
        invariant
            i <= names.len(),
            all == texts(names@).map_values(|n: Seq<char>| PartialValueView::Iutf8(lower(n))),
            r@ == collected(all.take(i as int)),
        decreases names.len() - i,
    {
        r.insert(Value::new_iutf8(names[i].as_str()));
        i = i + 1;
        assert(all.take(i as int).drop_last() =~= all.take(i - 1));
    }
    assert(all.take(i as int) =~= all);
    r
}

/// Makes a set of ways to index.
fn set_of_indexes(index: &Vec<IndexType>) -> (r: ValueSet)
    ensures
        r@ == index_set(index@),
{
    let mut r = ValueSet::new();
    let ghost all = index@.map_values(|i: IndexType| PartialValueView::Index(i));
    let mut i: usize = 0;
    while i < index.len()
        invariant
            i <= index.len(),
            all == index@.map_values(|i: IndexType| PartialValueView::Index(i)),
            r@ == collected(all.take(i as int)),
        decreases index.len() - i,
    {
        r.insert(Value::new(PartialValue::Index(index[i])));
        i = i + 1;
        assert(all.take(i as int).drop_last() =~= all.take(i - 1));
    }
    assert(all.take(i as int) =~= all);
    r
}

/// Makes the set of classes of a definition.
fn set_of_classes(class: &str) -> (r: ValueSet)
    ensures
        r@ == text_set(seq!["object"@, "system"@, class@]),
{
    let mut names: Vec<String> = Vec::new();
    names.push("object".to_owned());
    names.push("system".to_owned());
    names.push(class.to_owned());
    assert(texts(names@) =~= seq!["object"@, "system"@, class@]);
    set_of_texts(&names)
}

/// Appends an attribute to a list.
fn add_ava(attrs: &mut Vec<(String, ValueSet)>, attr: &str, values: ValueSet)
    ensures
        attrs_views(final(attrs)@) == attrs_views(old(attrs)@).push((attr@, values@)),
{
    let ghost before = attrs_views(attrs@);
    attrs.push((attr.to_owned(), values));
    assert(attrs_views(attrs@) =~= before.push((attr@, values@)));
}

/// What the definition of an attribute has stands in order.
pub(crate) proof fn lemma_attribute_entry_names(a: SchemaAttributeView)
    ensures
        names_in_order(attribute_entry(a)),
{
    reveal_strlit("attributename");
    reveal_strlit("class");
    reveal_strlit("description");
    reveal_strlit("index");
    reveal_strlit("multivalue");
    reveal_strlit("phantom");
    reveal_strlit("syntax");
    reveal_strlit("unique");
    reveal_strlit("uuid");
    lemma_text_precedes_at("attributename"@, "class"@, 0);
    lemma_text_precedes_at("class"@, "description"@, 0);
    lemma_text_precedes_at("description"@, "index"@, 0);
    lemma_text_precedes_at("index"@, "multivalue"@, 0);
    lemma_text_precedes_at("multivalue"@, "phantom"@, 0);
    lemma_text_precedes_at("phantom"@, "syntax"@, 0);
    lemma_text_precedes_at("syntax"@, "unique"@, 0);
    lemma_text_precedes_at("unique"@, "uuid"@, 1);
    lemma_names_in_order(attribute_entry(a));
}

/// What the definition of a class has stands in order.
pub(crate) proof fn lemma_class_entry_names(c: SchemaClassView)
    ensures
        names_in_order(class_entry(c)),
{
    reveal_strlit("class");
    reveal_strlit("classname");
    reveal_strlit("description");
    reveal_strlit("may");
    reveal_strlit("must");
    reveal_strlit("systemmay");
    reveal_strlit("systemmust");
    reveal_strlit("uuid");
    lemma_text_precedes_at("class"@, "classname"@, 5);
    lemma_text_precedes_at("classname"@, "description"@, 0);
    lemma_text_precedes_at("description"@, "may"@, 0);
    lemma_text_precedes_at("may"@, "must"@, 1);
    lemma_text_precedes_at("must"@, "systemmay"@, 0);
    lemma_text_precedes_at("systemmay"@, "systemmust"@, 7);
    lemma_text_precedes_at("systemmust"@, "uuid"@, 0);
    lemma_names_in_order(class_entry(c));
}

/// Makes the entry that defines an attribute.
pub fn entry_of_attribute(a: &SchemaAttribute) -> (r: Entry)
    ensures
        r@ == attribute_entry(a@),
{
    let mut attrs: Vec<(String, ValueSet)> = Vec::new();
    add_ava(&mut attrs, "attributename", set_of_one(PartialValue::new_iutf8(a.name.as_str())));
    add_ava(&mut attrs, "class", set_of_classes("attributetype"));
    add_ava(&mut attrs, "description", set_of_one(PartialValue::Utf8(a.description.clone())));
    add_ava(&mut attrs, "index", set_of_indexes(&a.index));
    add_ava(&mut attrs, "multivalue", set_of_one(PartialValue::Bool(a.multivalue)));
    add_ava(&mut attrs, "phantom", set_of_one(PartialValue::Bool(a.phantom)));
    add_ava(&mut attrs, "syntax", set_of_one(PartialValue::Syntax(a.syntax)));
    add_ava(&mut attrs, "unique", set_of_one(PartialValue::Bool(a.unique)));
    add_ava(&mut attrs, "uuid", set_of_one(PartialValue::Uuid(a.uuid)));
    assert(attrs_views(attrs@) =~= attribute_entry(a@));
    proof {
        lemma_attribute_entry_names(a@);
    }
    Entry::from_attrs(attrs)
}

/// Makes the entry that defines a class.
pub fn entry_of_class(c: &SchemaClass) -> (r: Entry)
    ensures
        r@ == class_entry(c@),
{
    let mut attrs: Vec<(String, ValueSet)> = Vec::new();
    add_ava(&mut attrs, "class", set_of_classes("classtype"));
    add_ava(&mut attrs, "classname", set_of_one(PartialValue::new_iutf8(c.name.as_str())));
    add_ava(&mut attrs, "description", set_of_one(PartialValue::Utf8(c.description.clone())));
    add_ava(&mut attrs, "may", set_of_texts(&c.may));
    add_ava(&mut attrs, "must", set_of_texts(&c.must));
    add_ava(&mut attrs, "systemmay", set_of_texts(&c.systemmay));
    add_ava(&mut attrs, "systemmust", set_of_texts(&c.systemmust));
    add_ava(&mut attrs, "uuid", set_of_one(PartialValue::Uuid(c.uuid)));
    assert(attrs_views(attrs@) =~= class_entry(c@));
    proof {
        lemma_class_entry_names(c@);
    }
    Entry::from_attrs(attrs)
}

/// The contents of a list of entries.
pub open spec fn entry_views(list: Seq<Entry>) -> Seq<AttrsView> {
    list.map_values(|e: Entry| e@)
}

/// The entries that define some attributes and then some classes.
pub open spec fn definitions(
    attributes: Seq<SchemaAttributeView>,
    classes: Seq<SchemaClassView>,
) -> Seq<AttrsView> {
    attributes.map_values(|a: SchemaAttributeView| attribute_entry(a)) + classes.map_values(
        |c: SchemaClassView| class_entry(c),
    )
}

/// Makes the entries that define some attributes and then some classes.
pub fn entries_of(attributes: &Vec<&SchemaAttribute>, classes: &Vec<&SchemaClass>) -> (r: Vec<
    Entry,
>)
    ensures
        entry_views(r@) == definitions(attribute_views(attributes@), class_views(classes@)),
{
    let mut r: Vec<Entry> = Vec::new();
    let mut i: usize = 0;
    while i < attributes.len()
        invariant
            i <= attributes.len(),
            r.len() == i,
            forall|j: int| 0 <= j < i ==> (#[trigger] r@[j])@ == attribute_entry(attributes@[j]@),
        decreases attributes.len() - i,
    {
        r.push(entry_of_attribute(attributes[i]));
        i = i + 1;
    }
    let ghost n = attributes.len();
    let mut k: usize = 0;
    while k < classes.len()
        invariant
            k <= classes.len(),
            n == attributes.len(),
            r.len() == n + k,
            forall|j: int| 0 <= j < n ==> (#[trigger] r@[j])@ == attribute_entry(attributes@[j]@),
            forall|j: int|
                n <= j < n + k ==> (#[trigger] r@[j])@ == class_entry(classes@[j - n]@),
        decreases classes.len() - k,
    {
        r.push(entry_of_class(classes[k]));
        k = k + 1;
    }
    assert(entry_views(r@) =~= definitions(attribute_views(attributes@), class_views(classes@)));
    r
}

/// What is collected is in ascending order, and is what was put in.
pub(crate) proof fn lemma_collected(values: Seq<PartialValueView>)
    ensures
        ascending(collected(values)),
        forall|p: PartialValueView| #[trigger]
            holds(collected(values), p) <==> values.contains(p),
        forall|i: int|
            0 <= i < collected(values).len() ==> values.contains(
                (#[trigger] collected(values)[i]).partial,
            ) && collected(values)[i].valid,
    decreases values.len(),
{
    let all = collected(values);
    if values.len() > 0 {
        let front = values.drop_last();
        let last = ValueView::plain(values.last());
        lemma_collected(front);
        law_inserted(collected(front), last);
        assert forall|p: PartialValueView| #[trigger] holds(all, p) <==> values.contains(p) by {
            lemma_holds_inserted(collected(front), last, p);
            assert(holds(collected(front), p) <==> front.contains(p));
            if front.contains(p) {
                let k = choose|k: int| 0 <= k < front.len() && front[k] == p;
                assert(values[k] == p);
            }
            if p == values.last() {
                assert(values[values.len() - 1] == p);
            }
            if values.contains(p) {
                let k = choose|k: int| 0 <= k < values.len() && values[k] == p;
                if k < front.len() {
                    assert(front[k] == p);
                }
            }
        }
        assert forall|i: int| 0 <= i < all.len() implies values.contains(
            (#[trigger] all[i]).partial,
        ) && all[i].valid by {
            assert(holds(all, all[i].partial));
            assert(all.contains(all[i]));
            if collected(front).contains(all[i]) {
                let k = choose|k: int|
                    0 <= k < collected(front).len() && collected(front)[k] == all[i];
                assert(collected(front)[k].valid);
            }
        }
    }
}

/// What an entry has at a place, it has by the name that stands there.
proof fn lemma_ava_at(attrs: AttrsView, i: int)
    requires
        names_in_order(attrs),
        0 <= i < attrs.len(),
    ensures
        ava(attrs, attrs[i].0) == Some(attrs[i].1),
{
    lemma_text_irreflexive(attrs[i].0);
    crate::entry::lemma_ava_first(attrs, attrs[i].0, i);
}

/// Whether ways to index stand in ascending order.
pub open spec fn indexes_ascend(list: Seq<IndexType>) -> bool {
    forall|i: int, j: int|
        0 <= i < j < list.len() ==> (#[trigger] list[i]).place() < (#[trigger] list[j]).place()
}

/// Whether names stand in ascending order.
pub open spec fn names_ascend(list: Seq<Seq<char>>) -> bool {
    forall|i: int, j: int|
        0 <= i < j < list.len() ==> text_precedes(#[trigger] list[i], #[trigger] list[j])
}

/// Some names in lower case.
pub open spec fn lowered(names: Seq<Seq<char>>) -> Seq<Seq<char>> {
    names.map_values(|n: Seq<char>| lower(n))
}

/// Whether a list has some names, each once, in ascending order.
pub open spec fn lists_in_order(list: Seq<Seq<char>>, names: Seq<Seq<char>>) -> bool {
    &&& names_ascend(list)
    &&& forall|n: Seq<char>| #[trigger] list.contains(n) <==> names.contains(n)
}

/// The ways to index in the set of some, in ascending order.
proof fn lemma_index_set(index: Seq<IndexType>)
    ensures
        forall|i: int|
            0 <= i < index_set(index).len() ==> (#[trigger] index_set(index)[i]).partial is Index,
        ({
            let list = index_set(index).map_values(|v: ValueView| v.partial->Index_0);
            &&& indexes_ascend(list)
            &&& forall|t: IndexType| #[trigger] list.contains(t) <==> index.contains(t)
            &&& indexes_ascend(index) ==> list == index
        }),
{
    let values = index.map_values(|i: IndexType| PartialValueView::Index(i));
    let set = index_set(index);
    let list = set.map_values(|v: ValueView| v.partial->Index_0);
    lemma_collected(values);
    assert forall|i: int| 0 <= i < set.len() implies (#[trigger] set[i]).partial is Index by {
        assert(values.contains(set[i].partial));
    }
    assert forall|i: int, j: int| 0 <= i < j < list.len() implies (#[trigger] list[i]).place() < (
    #[trigger] list[j]).place() by {
        assert(set[i].partial.precedes(set[j].partial));
    }
    assert forall|t: IndexType| #[trigger] list.contains(t) <==> index.contains(t) by {
        let p = PartialValueView::Index(t);
        assert(holds(set, p) <==> values.contains(p));
        if list.contains(t) {
            let k = choose|k: int| 0 <= k < list.len() && list[k] == t;
            assert(set[k].partial == p);
            let h = choose|h: int| 0 <= h < values.len() && values[h] == p;
            assert(index[h] == t);
        }
        if index.contains(t) {
            let h = choose|h: int| 0 <= h < index.len() && index[h] == t;
            assert(values[h] == p);
            let k = choose|k: int| 0 <= k < set.len() && (#[trigger] set[k]).partial == p;
            assert(list[k] == t);
        }
    }
    if indexes_ascend(index) {
        let plain = values.map_values(|p: PartialValueView| ValueView::plain(p));
        assert forall|i: int, j: int| 0 <= i < j < plain.len() implies (
        #[trigger] plain[i]).partial.precedes((#[trigger] plain[j]).partial) by {
            assert(index[i].place() < index[j].place());
        }
        lemma_collected_as_given(values);
        assert(list =~= index);
    }
}

/// Values in ascending order are collected as they are.
proof fn lemma_collected_as_given(values: Seq<PartialValueView>)
    requires
        ascending(values.map_values(|p: PartialValueView| ValueView::plain(p))),
    ensures
        collected(values) == values.map_values(|p: PartialValueView| ValueView::plain(p)),
{
    let plain = values.map_values(|p: PartialValueView| ValueView::plain(p));
    let set = collected(values);
    lemma_collected(values);
    assert forall|w: ValueView| #[trigger] set.contains(w) <==> plain.contains(w) by {
        if set.contains(w) {
            let k = choose|k: int| 0 <= k < set.len() && set[k] == w;
            assert(values.contains(set[k].partial) && set[k].valid);
            let h = choose|h: int| 0 <= h < values.len() && values[h] == w.partial;
            assert(plain[h] == w);
        }
        if plain.contains(w) {
            let h = choose|h: int| 0 <= h < plain.len() && plain[h] == w;
            assert(values[h] == w.partial);
            assert(holds(set, w.partial));
            let k = choose|k: int| 0 <= k < set.len() && (#[trigger] set[k]).partial == w.partial;
            assert(set[k].valid);
            assert(set[k] == w);
        }
    }
    law_order_is_unique(set, plain);
}

/// The entry that defines an attribute, once it is committed under the
/// identifier of the attribute, is read back as that attribute, with its name in
/// lower case, and with each of its ways to index once, in ascending order.
pub proof fn law_attribute_round_trip(a: SchemaAttributeView)
    ensures
        attribute_of(SealedEntryView { uuid: a.uuid, attrs: attribute_entry(a) }) matches Ok(b) && {
            &&& b == (SchemaAttributeView { name: lower(a.name), index: b.index, ..a })
            &&& indexes_ascend(b.index)
            &&& forall|t: IndexType| #[trigger] b.index.contains(t) <==> a.index.contains(t)
        },
        lower(a.name) == a.name && indexes_ascend(a.index) ==> attribute_of(
            SealedEntryView { uuid: a.uuid, attrs: attribute_entry(a) },
        ) == Ok::<SchemaAttributeView, Seq<char>>(a),
{
    let attrs = attribute_entry(a);
    lemma_attribute_entry_names(a);
    assert forall|i: int| 0 <= i < attrs.len() implies ava(attrs, (#[trigger] attrs[i]).0) == Some(
        attrs[i].1,
    ) by {
        lemma_ava_at(attrs, i);
    }
    let classes = seq!["object"@, "system"@, "attributetype"@];
    let values = classes.map_values(|n: Seq<char>| PartialValueView::Iutf8(lower(n)));
    lemma_collected(values);
    assert(lower("attributetype"@) =~= "attributetype"@) by {
        reveal_strlit("attributetype");
    }
    assert(values[2] == PartialValueView::Iutf8("attributetype"@));
    assert(holds(attrs[1].1, values[2]));
    assert(attrs[0].0 == "attributename"@);
    assert(attrs[1].0 == "class"@);
    assert(attrs[2].0 == "description"@);
    assert(attrs[3].0 == "index"@);
    assert(attrs[4].0 == "multivalue"@);
    assert(attrs[5].0 == "phantom"@);
    assert(attrs[6].0 == "syntax"@);
    assert(attrs[7].0 == "unique"@);
    lemma_index_set(a.index);
}

/// Whether each of some names is in lower case.
pub open spec fn in_lower_case(names: Seq<Seq<char>>) -> bool {
    forall|i: int| 0 <= i < names.len() ==> lower(#[trigger] names[i]) == names[i]
}

/// The texts of values that are all text whose case does not matter.
proof fn lemma_texts_of(set: Seq<ValueView>)
    requires
        forall|i: int| 0 <= i < set.len() ==> (#[trigger] set[i]).partial is Iutf8,
    ensures
        set.filter_map(|v: ValueView| v.partial.text()) == set.map_values(
            |v: ValueView| v.partial->Iutf8_0,
        ),
    decreases set.len(),
{
    let f = |v: ValueView| v.partial.text();
    let g = |v: ValueView| v.partial->Iutf8_0;
    if set.len() == 0 {
        assert(set.filter_map(f) =~= set.map_values(g));
    } else {
        let n = set.len() - 1;
        let front = set.take(n);
        assert forall|i: int| 0 <= i < front.len() implies (#[trigger] front[i]).partial is Iutf8 by {
            assert(front[i] == set[i]);
        }
        lemma_texts_of(front);
        set.lemma_filter_map_take_succ(f, n);
        assert(set.take(n + 1) =~= set);
        assert(f(set[n]) == Some(g(set[n])));
        assert(set.filter_map(f) =~= set.map_values(g));
    }
}

/// The texts in the set of some names, in ascending order.
proof fn lemma_text_set(names: Seq<Seq<char>>)
    ensures
        lists_in_order(
            text_set(names).filter_map(|v: ValueView| v.partial.text()),
            lowered(names),
        ),
        names_ascend(names) && in_lower_case(names) ==> text_set(names).filter_map(
            |v: ValueView| v.partial.text(),
        ) == names,
{
    let values = names.map_values(|n: Seq<char>| PartialValueView::Iutf8(lower(n)));
    let set = text_set(names);
    let list = set.map_values(|v: ValueView| v.partial->Iutf8_0);
    lemma_collected(values);
    assert forall|i: int| 0 <= i < set.len() implies (#[trigger] set[i]).partial is Iutf8 by {
        assert(values.contains(set[i].partial));
    }
    lemma_texts_of(set);
    assert forall|i: int, j: int| 0 <= i < j < list.len() implies text_precedes(
        #[trigger] list[i],
        #[trigger] list[j],
    ) by {
        assert(set[i].partial.precedes(set[j].partial));
    }
    assert forall|n: Seq<char>| #[trigger] list.contains(n) <==> lowered(names).contains(n) by {
        let p = PartialValueView::Iutf8(n);
        assert(holds(set, p) <==> values.contains(p));
        if list.contains(n) {
            let k = choose|k: int| 0 <= k < list.len() && list[k] == n;
            assert(set[k].partial == p);
            let h = choose|h: int| 0 <= h < values.len() && values[h] == p;
            assert(lowered(names)[h] == n);
        }
        if lowered(names).contains(n) {
            let h = choose|h: int| 0 <= h < names.len() && lowered(names)[h] == n;
            assert(values[h] == p);
            let k = choose|k: int| 0 <= k < set.len() && (#[trigger] set[k]).partial == p;
            assert(list[k] == n);
        }
    }
    if names_ascend(names) && in_lower_case(names) {
        let plain = values.map_values(|p: PartialValueView| ValueView::plain(p));
        assert forall|i: int, j: int| 0 <= i < j < plain.len() implies (
        #[trigger] plain[i]).partial.precedes((#[trigger] plain[j]).partial) by {
            assert(text_precedes(names[i], names[j]));
        }
        lemma_collected_as_given(values);
        assert(list =~= names);
    }
}

/// The entry that defines a class, once it is committed under the identifier of
/// the class, is read back as that class, with all names in lower case, and with
/// each name of a list once, in ascending order.
pub proof fn law_class_round_trip(c: SchemaClassView)
    ensures
        class_of(SealedEntryView { uuid: c.uuid, attrs: class_entry(c) }) matches Ok(d) && {
            &&& d.name == lower(c.name)
            &&& d.uuid == c.uuid
            &&& d.description == c.description
            &&& lists_in_order(d.systemmay, lowered(c.systemmay))
            &&& lists_in_order(d.may, lowered(c.may))
            &&& lists_in_order(d.systemmust, lowered(c.systemmust))
            &&& lists_in_order(d.must, lowered(c.must))
        },
        ({
            &&& lower(c.name) == c.name
            &&& in_lower_case(c.systemmay) && names_ascend(c.systemmay)
            &&& in_lower_case(c.may) && names_ascend(c.may)
            &&& in_lower_case(c.systemmust) && names_ascend(c.systemmust)
            &&& in_lower_case(c.must) && names_ascend(c.must)
        }) ==> class_of(SealedEntryView { uuid: c.uuid, attrs: class_entry(c) }) == Ok::<
            SchemaClassView,
            Seq<char>,
        >(c),
{
    let attrs = class_entry(c);
    lemma_class_entry_names(c);
    assert forall|i: int| 0 <= i < attrs.len() implies ava(attrs, (#[trigger] attrs[i]).0) == Some(
        attrs[i].1,
    ) by {
        lemma_ava_at(attrs, i);
    }
    let classes = seq!["object"@, "system"@, "classtype"@];
    let values = classes.map_values(|n: Seq<char>| PartialValueView::Iutf8(lower(n)));
    lemma_collected(values);
    assert(lower("classtype"@) =~= "classtype"@) by {
        reveal_strlit("classtype");
    }
    assert(values[2] == PartialValueView::Iutf8("classtype"@));
    assert(holds(attrs[0].1, values[2]));
    assert(attrs[0].0 == "class"@);
    assert(attrs[1].0 == "classname"@);
    assert(attrs[2].0 == "description"@);
    assert(attrs[3].0 == "may"@);
    assert(attrs[4].0 == "must"@);
    assert(attrs[5].0 == "systemmay"@);
    assert(attrs[6].0 == "systemmust"@);
    lemma_text_set(c.systemmay);
    lemma_text_set(c.may);
    lemma_text_set(c.systemmust);
    lemma_text_set(c.must);
}

} // verus!
