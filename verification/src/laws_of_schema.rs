//! What the operations on a schema give and change.
use crate::attribute::SchemaAttribute;
use crate::class::SchemaClass;
use crate::consistency::check_classes;
use crate::error::{ConsistencyError, SchemaError};
use crate::schema::{SchemaTransaction, SchemaWriteTransaction};
use crate::tables::IdxKey;
use crate::value::{IndexType, SyntaxType};
use hashbrown::{HashMap, HashSet};
use vstd::prelude::*;

verus! {

use crate::attribute::SchemaAttributeView;
use crate::class::SchemaClassView;
use crate::consistency::{class_report, consistent, finding, full_report, law_report_is_exact, problem};
use crate::error::{report, ConsistencyErrorView, SchemaErrorView};
use crate::laws_of_compliance::{lemma_in_either, named_by};
use crate::schema::{attributes_by_name, classes_by_name, indexes_of, references, unique_names};
use crate::tables::{attributes_in, class_views, indexes_in, lists_values, Attributes, Classes};

/// Every way to index of every attribute is gathered, under the name of the attribute
/// and whatever else the attribute is; and nothing else is gathered.
pub proof fn law_indexes_are_gathered<'a>(txn: SchemaWriteTransaction<'a>, r: HashSet<IdxKey>)
    requires
        call_ensures(SchemaWriteTransaction::<'a>::reload_idxmeta, (&txn,), r),
    ensures
        forall|n: Seq<char>, t: IndexType|
            #![trigger txn.schema().attributes[n].index.contains(t)]
            txn.schema().attributes.contains_key(n) && txn.schema().attributes[n].index.contains(t)
                ==> indexes_in(r).contains((txn.schema().attributes[n].name, t)),
        forall|k: (Seq<char>, IndexType)| #[trigger]
            indexes_in(r).contains(k) ==> exists|n: Seq<char>| #[trigger]
                txn.schema().attributes.contains_key(n) && txn.schema().attributes[n].name == k.0
                    && txn.schema().attributes[n].index.contains(k.1),
{
    let all = txn.schema().attributes;
    assert forall|n: Seq<char>, t: IndexType|
        #![trigger all[n].index.contains(t)]
        all.contains_key(n) && all[n].index.contains(t) implies indexes_in(r).contains(
        (all[n].name, t),
    ) by {
        assert(indexes_of(all).contains((all[n].name, t)));
    }
}

/// One attribute more asks for its own ways to index besides those that were asked
/// for before.
pub proof fn law_one_more_attribute_is_indexed(
    attributes: Attributes,
    n: Seq<char>,
    a: SchemaAttributeView,
    k: (Seq<char>, IndexType),
)
    requires
        !attributes.contains_key(n),
    ensures
        indexes_of(attributes.insert(n, a)).contains(k) <==> indexes_of(attributes).contains(k) || (
        k.0 == a.name && a.index.contains(k.1)),
{
    let more = attributes.insert(n, a);
    if indexes_of(more).contains(k) {
        let m = choose|m: Seq<char>| #[trigger]
            more.contains_key(m) && more[m].name == k.0 && more[m].index.contains(k.1);
        if m != n {
            assert(attributes.contains_key(m));
        }
    }
    if indexes_of(attributes).contains(k) {
        let m = choose|m: Seq<char>| #[trigger]
            attributes.contains_key(m) && attributes[m].name == k.0 && attributes[m].index.contains(
                k.1,
            );
        assert(more.contains_key(m) && more[m] == attributes[m]);
    }
    if k.0 == a.name && a.index.contains(k.1) {
        assert(more.contains_key(n));
    }
}

/// What a class names is what its four lists name.
proof fn lemma_named(c: SchemaClassView, a: Seq<char>)
    ensures
        c.named().contains(a) <==> named_by(c, a),
{
    lemma_in_either(c.systemmay, c.may, a);
    lemma_in_either(c.systemmay + c.may, c.systemmust, a);
    lemma_in_either(c.systemmay + c.may + c.systemmust, c.must, a);
}

/// What a report on some classes has.
proof fn lemma_full_report(order: Seq<SchemaClassView>, attributes: Attributes)
    ensures
        full_report(order, attributes) == order.flat_map(
            |c: SchemaClassView|
                (c.systemmay + c.may + c.systemmust + c.must).filter_map(
                    |a: Seq<char>|
                        if !attributes.contains_key(a) {
                            Some(
                                Err::<(), ConsistencyErrorView>(
                                    ConsistencyErrorView::SchemaClassMissingAttribute(c.name, a),
                                ),
                            )
                        } else if attributes[a].phantom {
                            Some(
                                Err(ConsistencyErrorView::SchemaClassPhantomAttribute(c.name, a)),
                            )
                        } else {
                            None
                        },
                ),
        ),
{
    let f = |c: SchemaClassView| class_report(c, attributes);
    let g = |c: SchemaClassView|
        (c.systemmay + c.may + c.systemmust + c.must).filter_map(
            |a: Seq<char>|
                if !attributes.contains_key(a) {
                    Some(
                        Err::<(), ConsistencyErrorView>(
                            ConsistencyErrorView::SchemaClassMissingAttribute(c.name, a),
                        ),
                    )
                } else if attributes[a].phantom {
                    Some(Err(ConsistencyErrorView::SchemaClassPhantomAttribute(c.name, a)))
                } else {
                    None
                },
        );
    assert forall|c: SchemaClassView| #[trigger] f(c) == g(c) by {
        let x = finding(c.name, attributes);
        let y = |a: Seq<char>|
            if !attributes.contains_key(a) {
                Some(
                    Err::<(), ConsistencyErrorView>(
                        ConsistencyErrorView::SchemaClassMissingAttribute(c.name, a),
                    ),
                )
            } else if attributes[a].phantom {
                Some(Err(ConsistencyErrorView::SchemaClassPhantomAttribute(c.name, a)))
            } else {
                None
            };
        assert(x =~= y);
    }
    assert(f =~= g);
}

/// Classes are reported on in the order in which they are given, and each as a schema
/// is reported on.
pub proof fn law_classes_are_reported_on<'a>(
    classes: Vec<&'a SchemaClass>,
    table: HashMap<String, SchemaAttribute>,
    r: Vec<Result<(), ConsistencyError>>,
)
    requires
        call_ensures(check_classes, (&classes, &table), r),
    ensures
        ({
            let attributes = attributes_in(table);
            report(r@) == classes@.map_values(|c: &SchemaClass| c@).flat_map(
                |c: SchemaClassView|
                    (c.systemmay + c.may + c.systemmust + c.must).filter_map(
                        |a: Seq<char>|
                            if !attributes.contains_key(a) {
                                Some(
                                    Err::<(), ConsistencyErrorView>(
                                        ConsistencyErrorView::SchemaClassMissingAttribute(c.name, a),
                                    ),
                                )
                            } else if attributes[a].phantom {
                                Some(
                                    Err(ConsistencyErrorView::SchemaClassPhantomAttribute(c.name, a)),
                                )
                            } else {
                                None
                            },
                    ),
            )
        }),
{
    lemma_full_report(class_views(classes@), attributes_in(table));
}

/// A schema is reported on class by class, in some order, and in a class list by list:
/// `systemmay`, `may`, `systemmust`, `must`. Each time that an attribute is named that
/// the schema does not have, there is an error that says so, with the name of the
/// class; and likewise each time for one that is a phantom. There is nothing else.
pub proof fn law_schema_is_reported_on<T: SchemaTransaction>(
    txn: T,
    r: Vec<Result<(), ConsistencyError>>,
)
    requires
        call_ensures(T::validate, (&txn,), r),
    ensures
        exists|order: Seq<SchemaClassView>| #[trigger]
            lists_values(order, txn.schema().classes) && report(r@) == order.flat_map(
                |c: SchemaClassView|
                    (c.systemmay + c.may + c.systemmust + c.must).filter_map(
                        |a: Seq<char>|
                            if !txn.schema().attributes.contains_key(a) {
                                Some(
                                    Err::<(), ConsistencyErrorView>(
                                        ConsistencyErrorView::SchemaClassMissingAttribute(
                                            c.name,
                                            a,
                                        ),
                                    ),
                                )
                            } else if txn.schema().attributes[a].phantom {
                                Some(
                                    Err(
                                        ConsistencyErrorView::SchemaClassPhantomAttribute(
                                            c.name,
                                            a,
                                        ),
                                    ),
                                )
                            } else {
                                None
                            },
                    ),
            ),
{
    let attributes = txn.schema().attributes;
    let order = choose|order: Seq<SchemaClassView>| #[trigger]
        lists_values(order, txn.schema().classes) && report(r@) == full_report(order, attributes);
    lemma_full_report(order, attributes);
    assert(lists_values(order, txn.schema().classes));
}

/// A missing attribute is reported of a class if and only if a class of that name
/// names it in one of its lists and the schema does not have it; and a phantom if and
/// only if a class of that name names it and it is one. A report is empty if and only
/// if no class names an attribute that is missing or a phantom.
pub proof fn law_what_is_reported<T: SchemaTransaction>(
    txn: T,
    r: Vec<Result<(), ConsistencyError>>,
    class: Seq<char>,
    attr: Seq<char>,
)
    requires
        call_ensures(T::validate, (&txn,), r),
    ensures
        report(r@).contains(
            Err(ConsistencyErrorView::SchemaClassMissingAttribute(class, attr)),
        ) <==> !txn.schema().attributes.contains_key(attr) && exists|k: Seq<char>| #[trigger]
            txn.schema().classes.contains_key(k) && txn.schema().classes[k].name == class
                && named_by(txn.schema().classes[k], attr),
        report(r@).contains(
            Err(ConsistencyErrorView::SchemaClassPhantomAttribute(class, attr)),
        ) <==> txn.schema().attributes.contains_key(attr)
            && txn.schema().attributes[attr].phantom && exists|k: Seq<char>| #[trigger]
            txn.schema().classes.contains_key(k) && txn.schema().classes[k].name == class
                && named_by(txn.schema().classes[k], attr),
        r@.len() == 0 ==> forall|k: Seq<char>| #[trigger]
            txn.schema().classes.contains_key(k) && named_by(txn.schema().classes[k], attr)
                ==> txn.schema().attributes.contains_key(attr)
                && !txn.schema().attributes[attr].phantom,
        (forall|k: Seq<char>, a: Seq<char>|
            #![trigger named_by(txn.schema().classes[k], a)]
            txn.schema().classes.contains_key(k) && named_by(txn.schema().classes[k], a)
                ==> txn.schema().attributes.contains_key(a) && !txn.schema().attributes[a].phantom)
            ==> r@.len() == 0,
{
    let classes = txn.schema().classes;
    let attributes = txn.schema().attributes;
    let order = choose|order: Seq<SchemaClassView>| #[trigger]
        lists_values(order, classes) && report(r@) == full_report(order, attributes);
    let missing = ConsistencyErrorView::SchemaClassMissingAttribute(class, attr);
    let phantom = ConsistencyErrorView::SchemaClassPhantomAttribute(class, attr);
    law_report_is_exact(order, classes, attributes, missing);
    law_report_is_exact(order, classes, attributes, phantom);
    law_consistent(classes, attributes);
    if report(r@).contains(Err(missing)) {
        let (c, a) = choose|c: Seq<char>, a: Seq<char>|
            #![trigger classes[c].named().contains(a)]
            classes.contains_key(c) && classes[c].named().contains(a) && problem(
                classes[c].name,
                a,
                attributes,
            ) == Some(missing);
        lemma_named(classes[c], a);
        assert(classes.contains_key(c) && named_by(classes[c], attr));
    }
    if report(r@).contains(Err(phantom)) {
        let (c, a) = choose|c: Seq<char>, a: Seq<char>|
            #![trigger classes[c].named().contains(a)]
            classes.contains_key(c) && classes[c].named().contains(a) && problem(
                classes[c].name,
                a,
                attributes,
            ) == Some(phantom);
        lemma_named(classes[c], a);
        assert(classes.contains_key(c) && named_by(classes[c], attr));
    }
    if exists|k: Seq<char>| #[trigger]
        classes.contains_key(k) && classes[k].name == class && named_by(classes[k], attr) {
        let k = choose|k: Seq<char>| #[trigger]
            classes.contains_key(k) && classes[k].name == class && named_by(classes[k], attr);
        lemma_named(classes[k], attr);
        assert(classes[k].named().contains(attr));
    }
    if r@.len() == 0 {
        assert forall|k: Seq<char>| #[trigger]
            classes.contains_key(k) && named_by(classes[k], attr) implies attributes.contains_key(
            attr,
        ) && !attributes[attr].phantom by {
            assert(named_by(classes[k], attr));
        }
    }
}

/// A schema is consistent if and only if it has each attribute that a class names in
/// one of its lists, and none of these is a phantom.
pub proof fn law_consistent(classes: Classes, attributes: Attributes)
    ensures
        consistent(classes, attributes) <==> forall|k: Seq<char>, a: Seq<char>|
            #![trigger named_by(classes[k], a)]
            classes.contains_key(k) && named_by(classes[k], a) ==> attributes.contains_key(a)
                && !attributes[a].phantom,
{
    assert forall|k: Seq<char>, a: Seq<char>|
        #![trigger named_by(classes[k], a)]
        named_by(classes[k], a) == classes[k].named().contains(a) by {
        lemma_named(classes[k], a);
    }
    assert forall|k: Seq<char>, a: Seq<char>|
        #![trigger classes[k].named().contains(a)]
        named_by(classes[k], a) == classes[k].named().contains(a) by {
        lemma_named(classes[k], a);
    }
}

/// One attribute more, at the end of those that are put in place, stands under its
/// name in place of any other. It is among the references if it refers, and its name
/// is the last of the unique names if its values are unique. All else is as without
/// it.
pub proof fn law_one_more_attribute(list: Seq<SchemaAttributeView>, a: SchemaAttributeView)
    ensures
        attributes_by_name(list.push(a)) == attributes_by_name(list).insert(a.name, a),
        a.syntax == SyntaxType::REFERENCE_UUID ==> attributes_by_name(references(list.push(a)))
            == attributes_by_name(references(list)).insert(a.name, a),
        a.syntax != SyntaxType::REFERENCE_UUID ==> attributes_by_name(references(list.push(a)))
            == attributes_by_name(references(list)),
        a.unique ==> unique_names(list.push(a)) == unique_names(list).push(a.name),
        !a.unique ==> unique_names(list.push(a)) == unique_names(list),
{
    let refers = |a: SchemaAttributeView| a.syntax == SyntaxType::REFERENCE_UUID;
    let unique = |a: SchemaAttributeView| a.unique;
    let name = |a: SchemaAttributeView| a.name;
    assert(list.push(a).drop_last() =~= list);
    list.lemma_filter_push(a, refers);
    list.lemma_filter_push(a, unique);
    assert(references(list).push(a).drop_last() =~= references(list));
    assert(list.filter(unique).push(a).map_values(name) =~= unique_names(list).push(a.name));
}

/// If no attributes are put in place, there are none, none refers and no name is
/// unique.
pub proof fn law_no_attributes(list: Seq<SchemaAttributeView>)
    requires
        list.len() == 0,
    ensures
        attributes_by_name(list) == Attributes::empty(),
        attributes_by_name(references(list)) == Attributes::empty(),
        unique_names(list) == Seq::<Seq<char>>::empty(),
{
    reveal(Seq::filter);
    assert(references(list).len() == 0);
    assert(unique_names(list) =~= Seq::<Seq<char>>::empty());
}

/// One class more, at the end of those that are put in place, stands under its name
/// in place of any other. All else is as without it. If none are put in place, there
/// are none.
pub proof fn law_one_more_class(list: Seq<SchemaClassView>, c: SchemaClassView)
    ensures
        classes_by_name(list.push(c)) == classes_by_name(list).insert(c.name, c),
        list.len() == 0 ==> classes_by_name(list) == Classes::empty(),
{
    assert(list.push(c).drop_last() =~= list);
}

/// Whether an attribute takes several values is what the schema has under its name,
/// exactly as that is written.
pub proof fn law_multivalue_by_name<T: SchemaTransaction>(
    txn: T,
    attr: &str,
    r: Result<bool, SchemaError>,
)
    requires
        call_ensures(T::is_multivalue, (&txn, attr), r),
    ensures
        r is Ok <==> txn.schema().attributes.contains_key(attr@),
        r matches Ok(b) ==> b == txn.schema().attributes[attr@].multivalue,
        r matches Err(e) ==> e@ == SchemaErrorView::InvalidAttribute(attr@),
{
}

/// A name that the schema has, exactly as it is written, is normalised as any name is;
/// for another there is nothing.
pub proof fn law_normalised_if_known<T: SchemaTransaction>(
    txn: T,
    an: &str,
    r: Option<String>,
    s: String,
)
    requires
        call_ensures(T::normalise_attr_if_exists, (&txn, an), r),
        call_ensures(T::normalise_attr_name, (&txn, an), s),
    ensures
        r is Some <==> txn.schema().attributes.contains_key(an@),
        r matches Some(n) ==> n@ == s@,
{
}

/// To normalise a name of ASCII characters brings each of its capital letters to the
/// small letter, and leaves all else as it is.
pub proof fn law_normalised_name<T: SchemaTransaction>(txn: T, an: &str, s: String)
    requires
        call_ensures(T::normalise_attr_name, (&txn, an), s),
        forall|i: int| 0 <= i < an@.len() ==> (#[trigger] an@[i] as u32) < 0x80,
    ensures
        s@.len() == an@.len(),
        forall|i: int|
            0 <= i < an@.len() ==> (#[trigger] s@[i]) as u32 == (if 'A' <= an@[i] <= 'Z' {
                an@[i] as u32 + 0x20
            } else {
                an@[i] as u32 as int
            }),
{
}

} // verus!
