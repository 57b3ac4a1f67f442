//! What holds of the library as a whole.
use vstd::prelude::*;

verus! {

use crate::attribute::SchemaAttributeView;
use crate::class::SchemaClassView;
use crate::compliance::{
    absent, allowed, attribute_fault, classes_named, fault, first_fault, is_extensible, required,
    unknown_classes,
};
use crate::consistency::{class_report, consistent, full_report, lemma_flat_map_elements};
use crate::entry::{ava, text_list, AttrsView};
use crate::schema::{attributes_by_name, classes_by_name, references, unique_names};
use crate::state::SchemaView;
use crate::tables::{enumerates, lists_values, Attributes, Classes};
use crate::value::{PartialValueView, SyntaxType, ValueView};

/// Every value is of exactly one kind: one kind admits it, and no other does.
pub proof fn law_one_kind_admits(v: PartialValueView)
    ensures
        exists|s: SyntaxType| #[trigger] s.admits(v),
        forall|s: SyntaxType, t: SyntaxType|
            #![trigger s.admits(v), t.admits(v)]
            s.admits(v) && t.admits(v) ==> s == t,
{
    let s = match v {
        PartialValueView::Utf8(_) => SyntaxType::UTF8STRING,
        PartialValueView::Iutf8(_) => SyntaxType::UTF8STRING_INSENSITIVE,
        PartialValueView::Iname(_) => SyntaxType::UTF8STRING_INAME,
        PartialValueView::Uuid(_) => SyntaxType::UUID,
        PartialValueView::Bool(_) => SyntaxType::BOOLEAN,
        PartialValueView::Syntax(_) => SyntaxType::SYNTAX_ID,
        PartialValueView::Index(_) => SyntaxType::INDEX_ID,
        PartialValueView::Refer(_) => SyntaxType::REFERENCE_UUID,
        PartialValueView::JsonFilt(_) => SyntaxType::JSON_FILTER,
        PartialValueView::Cred(_) => SyntaxType::CREDENTIAL,
        PartialValueView::SshKey(_) => SyntaxType::SSHKEY,
        PartialValueView::RadiusCred => SyntaxType::RADIUS_UTF8STRING,
        PartialValueView::Spn(_, _) => SyntaxType::SERVICE_PRINCIPLE_NAME,
        PartialValueView::Uint32(_) => SyntaxType::UINT32,
        PartialValueView::Cid(_) => SyntaxType::CID,
        PartialValueView::Nsuniqueid(_) => SyntaxType::NSUNIQUEID,
    };
    assert(s.admits(v));
}

/// A set of values may stand under an attribute if and only if it is not too
/// large and each of its values may stand there alone.
pub proof fn law_values_are_accepted_one_by_one(a: SchemaAttributeView, values: Seq<ValueView>)
    ensures
        a.accepts(values) <==> (a.multivalue || values.len() <= 1) && forall|i: int|
            0 <= i < values.len() ==> a.accepts(seq![#[trigger] values[i]]),
{
    assert forall|i: int| 0 <= i < values.len() implies a.accepts(seq![#[trigger] values[i]])
        == a.syntax.admits(values[i].partial) by {
        let one = seq![values[i]];
        assert(one[0] == values[i]);
    }
    if (a.multivalue || values.len() <= 1) && forall|i: int|
        0 <= i < values.len() ==> a.accepts(seq![#[trigger] values[i]]) {
        assert forall|i: int| 0 <= i < values.len() implies a.syntax.admits(
            (#[trigger] values[i]).partial,
        ) by {
            assert(a.accepts(seq![values[i]]));
        }
    }
}

/// Whether no two attributes of a list have one name.
pub open spec fn distinct_attributes(list: Seq<SchemaAttributeView>) -> bool {
    forall|i: int, j: int|
        0 <= i < j < list.len() ==> (#[trigger] list[i]).name != (#[trigger] list[j]).name
}

/// The last attribute of a list that has a name stands under that name.
pub proof fn law_last_attribute_stays(list: Seq<SchemaAttributeView>, i: int)
    requires
        0 <= i < list.len(),
        forall|j: int| i < j < list.len() ==> (#[trigger] list[j]).name != list[i].name,
    ensures
        attributes_by_name(list).contains_key(list[i].name),
        attributes_by_name(list)[list[i].name] == list[i],
    decreases list.len(),
{
    if i < list.len() - 1 {
        let front = list.drop_last();
        assert(list[list.len() - 1].name != list[i].name);
        assert(front[i] == list[i]);
        assert forall|j: int| i < j < front.len() implies (#[trigger] front[j]).name
            != front[i].name by {
            assert(list[j].name != list[i].name);
        }
        law_last_attribute_stays(front, i);
    }
}

/// Under a name stands only an attribute of the list that has this name.
pub proof fn law_only_listed_attributes_stand(list: Seq<SchemaAttributeView>, n: Seq<char>)
    requires
        attributes_by_name(list).contains_key(n),
    ensures
        attributes_by_name(list)[n].name == n,
        list.contains(attributes_by_name(list)[n]),
    decreases list.len(),
{
    if list.len() > 0 {
        if list.last().name == n {
            assert(list[list.len() - 1] == list.last());
        } else {
            let front = list.drop_last();
            law_only_listed_attributes_stand(front, n);
            let k = choose|k: int| 0 <= k < front.len() && front[k] == attributes_by_name(front)[n];
            assert(list[k] == front[k]);
        }
    }
}

/// The last class of a list that has a name stands under that name.
pub proof fn law_last_class_stays(list: Seq<SchemaClassView>, i: int)
    requires
        0 <= i < list.len(),
        forall|j: int| i < j < list.len() ==> (#[trigger] list[j]).name != list[i].name,
    ensures
        classes_by_name(list).contains_key(list[i].name),
        classes_by_name(list)[list[i].name] == list[i],
    decreases list.len(),
{
    if i < list.len() - 1 {
        let front = list.drop_last();
        assert(list[list.len() - 1].name != list[i].name);
        assert(front[i] == list[i]);
        assert forall|j: int| i < j < front.len() implies (#[trigger] front[j]).name
            != front[i].name by {
            assert(list[j].name != list[i].name);
        }
        law_last_class_stays(front, i);
    }
}

/// Under a name stands only a class of the list that has this name.
pub proof fn law_only_listed_classes_stand(list: Seq<SchemaClassView>, n: Seq<char>)
    requires
        classes_by_name(list).contains_key(n),
    ensures
        classes_by_name(list)[n].name == n,
        list.contains(classes_by_name(list)[n]),
    decreases list.len(),
{
    if list.len() > 0 {
        if list.last().name == n {
            assert(list[list.len() - 1] == list.last());
        } else {
            let front = list.drop_last();
            law_only_listed_classes_stand(front, n);
            let k = choose|k: int| 0 <= k < front.len() && front[k] == classes_by_name(front)[n];
            assert(list[k] == front[k]);
        }
    }
}

/// Of attributes that all have different names, each stands under its own.
proof fn lemma_distinct_attributes(list: Seq<SchemaAttributeView>, i: int)
    requires
        distinct_attributes(list),
        0 <= i < list.len(),
    ensures
        attributes_by_name(list).contains_key(list[i].name),
        attributes_by_name(list)[list[i].name] == list[i],
{
    law_last_attribute_stays(list, i);
}

/// A part of a list of attributes is there in the order of the list.
proof fn lemma_filter_distinct(list: Seq<SchemaAttributeView>, p: spec_fn(SchemaAttributeView) -> bool)
    requires
        distinct_attributes(list),
    ensures
        distinct_attributes(list.filter(p)),
        forall|i: int|
            0 <= i < list.filter(p).len() ==> p(#[trigger] list.filter(p)[i]) && list.contains(
                list.filter(p)[i],
            ),
    decreases list.len(),
{
    reveal(Seq::filter);
    if list.len() > 0 {
        let front = list.drop_last();
        let last = list.last();
        lemma_filter_distinct(front, p);
        let kept = list.filter(p);
        let before = front.filter(p);
        assert forall|i: int| 0 <= i < kept.len() implies p(#[trigger] kept[i]) && list.contains(
            kept[i],
        ) by {
            if i < before.len() {
                assert(kept[i] == before[i]);
                let k = choose|k: int| 0 <= k < front.len() && front[k] == before[i];
                assert(list[k] == kept[i]);
            } else {
                assert(list[list.len() - 1] == kept[i]);
            }
        }
        assert forall|i: int, j: int| 0 <= i < j < kept.len() implies (#[trigger] kept[i]).name != (
        #[trigger] kept[j]).name by {
            assert(kept[i] == before[i]);
            if j < before.len() {
                assert(kept[j] == before[j]);
            } else {
                let k = choose|k: int| 0 <= k < front.len() && front[k] == before[i];
                assert(list[k] == kept[i]);
                assert(list[list.len() - 1] == kept[j]);
            }
        }
    }
}

/// After attributes that all have different names have been put in place of the
/// old ones, the references are exactly the attributes that refer, and the
/// unique names are exactly those of the attributes whose values are unique.
pub proof fn law_caches_agree(list: Seq<SchemaAttributeView>, n: Seq<char>)
    requires
        distinct_attributes(list),
    ensures
        attributes_by_name(references(list)).contains_key(n) <==> attributes_by_name(
            list,
        ).contains_key(n) && attributes_by_name(list)[n].syntax == SyntaxType::REFERENCE_UUID,
        attributes_by_name(references(list)).contains_key(n) ==> attributes_by_name(
            references(list),
        )[n] == attributes_by_name(list)[n],
        unique_names(list).contains(n) <==> attributes_by_name(list).contains_key(n)
            && attributes_by_name(list)[n].unique,
{
    let refers = |a: SchemaAttributeView| a.syntax == SyntaxType::REFERENCE_UUID;
    let unique = |a: SchemaAttributeView| a.unique;
    let refs = list.filter(refers);
    let uniques = list.filter(unique);
    lemma_filter_distinct(list, refers);
    lemma_filter_distinct(list, unique);
    if attributes_by_name(refs).contains_key(n) {
        law_only_listed_attributes_stand(refs, n);
        let a = attributes_by_name(refs)[n];
        let i = choose|i: int| 0 <= i < refs.len() && refs[i] == a;
        assert(refers(refs[i]) && list.contains(refs[i]));
        let k = choose|k: int| 0 <= k < list.len() && list[k] == a;
        lemma_distinct_attributes(list, k);
    }
    if unique_names(list).contains(n) {
        let i = choose|i: int| 0 <= i < unique_names(list).len() && unique_names(list)[i] == n;
        assert(unique(uniques[i]) && list.contains(uniques[i]));
        let k = choose|k: int| 0 <= k < list.len() && list[k] == uniques[i];
        lemma_distinct_attributes(list, k);
    }
    if attributes_by_name(list).contains_key(n) {
        law_only_listed_attributes_stand(list, n);
        let a = attributes_by_name(list)[n];
        let k = choose|k: int| 0 <= k < list.len() && list[k] == a;
        if refers(a) {
            list.lemma_filter_contains(refers, k);
            let i = choose|i: int| 0 <= i < refs.len() && refs[i] == a;
            lemma_distinct_attributes(refs, i);
        }
        if unique(a) {
            list.lemma_filter_contains(unique, k);
            let i = choose|i: int| 0 <= i < uniques.len() && uniques[i] == a;
            assert(unique_names(list)[i] == n);
        }
    }
}

/// What the mutations of a schema put in place stands under its own name, and
/// among the references stands only what refers.
pub proof fn law_updates_are_well_formed(
    attributes: Seq<SchemaAttributeView>,
    classes: Seq<SchemaClassView>,
)
    ensures
        (SchemaView {
            classes: classes_by_name(classes),
            attributes: attributes_by_name(attributes),
            unique_cache: unique_names(attributes),
            ref_cache: attributes_by_name(references(attributes)),
        }).wf(),
{
    let refs = references(attributes);
    assert forall|n: Seq<char>| #[trigger]
        attributes_by_name(attributes).contains_key(n) implies attributes_by_name(
        attributes,
    )[n].name == n by {
        law_only_listed_attributes_stand(attributes, n);
    }
    assert forall|n: Seq<char>| #[trigger]
        classes_by_name(classes).contains_key(n) implies classes_by_name(classes)[n].name == n by {
        law_only_listed_classes_stand(classes, n);
    }
    assert forall|n: Seq<char>| #[trigger]
        attributes_by_name(refs).contains_key(n) implies attributes_by_name(refs)[n].name == n
        && attributes_by_name(refs)[n].syntax == SyntaxType::REFERENCE_UUID by {
        law_only_listed_attributes_stand(refs, n);
        let a = attributes_by_name(refs)[n];
        let i = choose|i: int| 0 <= i < refs.len() && refs[i] == a;
        attributes.lemma_filter_pred(
            |a: SchemaAttributeView| a.syntax == SyntaxType::REFERENCE_UUID,
            i,
        );
    }
}

/// The attributes and classes of a well-formed schema, listed in any order and put
/// in place again, are those of the schema.
pub proof fn law_rereading_restores(
    schema: SchemaView,
    attributes: Seq<SchemaAttributeView>,
    classes: Seq<SchemaClassView>,
)
    requires
        schema.wf(),
        lists_values(attributes, schema.attributes),
        lists_values(classes, schema.classes),
    ensures
        attributes_by_name(attributes) == schema.attributes,
        classes_by_name(classes) == schema.classes,
{
    let ak = choose|keys: Seq<Seq<char>>| #[trigger]
        enumerates(keys, schema.attributes) && attributes == keys.map_values(
            |k: Seq<char>| schema.attributes[k],
        );
    assert forall|i: int| 0 <= i < attributes.len() implies schema.attributes.contains_key(ak[i])
        && (#[trigger] attributes[i]).name == ak[i] && attributes[i]
        == schema.attributes[ak[i]] by {
        assert(ak.contains(ak[i]));
        assert(schema.attributes.contains_key(ak[i]));
    }
    assert forall|n: Seq<char>| #[trigger] schema.attributes.contains_key(n) implies
        attributes_by_name(attributes).contains_key(n) && attributes_by_name(attributes)[n]
        == schema.attributes[n] by {
        assert(ak.contains(n));
        let i = choose|i: int| 0 <= i < ak.len() && ak[i] == n;
        assert(attributes[i].name == n);
        assert forall|j: int| i < j < attributes.len() implies (#[trigger] attributes[j]).name
            != attributes[i].name by {
            assert(ak[j] != ak[i]);
        }
        law_last_attribute_stays(attributes, i);
    }
    assert forall|n: Seq<char>| #[trigger]
        attributes_by_name(attributes).contains_key(n) implies schema.attributes.contains_key(
        n,
    ) by {
        law_only_listed_attributes_stand(attributes, n);
        let i = choose|i: int|
            0 <= i < attributes.len() && attributes[i] == attributes_by_name(attributes)[n];
        assert(attributes[i].name == ak[i]);
    }
    assert(attributes_by_name(attributes) =~= schema.attributes);
    let ck = choose|keys: Seq<Seq<char>>| #[trigger]
        enumerates(keys, schema.classes) && classes == keys.map_values(
            |k: Seq<char>| schema.classes[k],
        );
    assert forall|i: int| 0 <= i < classes.len() implies schema.classes.contains_key(ck[i]) && (
    #[trigger] classes[i]).name == ck[i] && classes[i] == schema.classes[ck[i]] by {
        assert(ck.contains(ck[i]));
        assert(schema.classes.contains_key(ck[i]));
    }
    assert forall|n: Seq<char>| #[trigger] schema.classes.contains_key(n) implies classes_by_name(
        classes,
    ).contains_key(n) && classes_by_name(classes)[n] == schema.classes[n] by {
        assert(ck.contains(n));
        let i = choose|i: int| 0 <= i < ck.len() && ck[i] == n;
        assert(classes[i].name == n);
        assert forall|j: int| i < j < classes.len() implies (#[trigger] classes[j]).name
            != classes[i].name by {
            assert(ck[j] != ck[i]);
        }
        law_last_class_stays(classes, i);
    }
    assert forall|n: Seq<char>| #[trigger]
        classes_by_name(classes).contains_key(n) implies schema.classes.contains_key(n) by {
        law_only_listed_classes_stand(classes, n);
        let i = choose|i: int| 0 <= i < classes.len() && classes[i] == classes_by_name(classes)[n];
        assert(classes[i].name == ck[i]);
    }
    assert(classes_by_name(classes) =~= schema.classes);
}

/// What is gathered from two lists, one after the other, is what is gathered from
/// each.
proof fn lemma_flat_map_concat<A, B>(s: Seq<A>, t: Seq<A>, f: spec_fn(A) -> Seq<B>)
    ensures
        (s + t).flat_map(f) == s.flat_map(f) + t.flat_map(f),
{
    assert((s + t).map_values(f) =~= s.map_values(f) + t.map_values(f));
    vstd::seq_lib::lemma_flatten_concat(s.map_values(f), t.map_values(f));
}

/// What is gathered from different things does not depend on their order, but
/// for the order in which it comes.
proof fn lemma_gathered_in_any_order<A, B>(s: Seq<A>, t: Seq<A>, f: spec_fn(A) -> Seq<B>)
    requires
        s.no_duplicates(),
        t.no_duplicates(),
        forall|a: A| #[trigger] s.contains(a) <==> t.contains(a),
    ensures
        s.flat_map(f).to_multiset() == t.flat_map(f).to_multiset(),
    decreases s.len(),
{
    if s.len() == 0 {
        if t.len() > 0 {
            assert(t.contains(t[0]));
            assert(s.contains(t[0]));
        }
        assert(s =~= t);
    } else {
        let front = s.drop_last();
        let last = s.last();
        let one = seq![last];
        assert(s[s.len() - 1] == last);
        assert(s.contains(last));
        let k = choose|k: int| 0 <= k < t.len() && t[k] == last;
        let head = t.take(k);
        let tail = t.skip(k + 1);
        let rest = head + tail;
        assert(s =~= front + one);
        assert(t =~= head + one + tail);
        assert forall|a: A| #[trigger] front.contains(a) <==> rest.contains(a) by {
            if front.contains(a) {
                let i = choose|i: int| 0 <= i < front.len() && front[i] == a;
                assert(s[i] == a);
                assert(s.contains(a));
                let j = choose|j: int| 0 <= j < t.len() && t[j] == a;
                if j < k {
                    assert(rest[j] == a);
                } else {
                    assert(j != k);
                    assert(rest[j - 1] == a);
                }
            }
            if rest.contains(a) {
                let j = choose|j: int| 0 <= j < rest.len() && rest[j] == a;
                let h = if j < k {
                    j
                } else {
                    j + 1
                };
                assert(t[h] == a);
                assert(t.contains(a));
                assert(s.contains(a));
                let i = choose|i: int| 0 <= i < s.len() && s[i] == a;
                assert(i != s.len() - 1);
                assert(front[i] == a);
            }
        }
        assert forall|i: int, j: int|
            0 <= i < rest.len() && 0 <= j < rest.len() && i != j implies rest[i] != rest[j] by {
            let g = if i < k {
                i
            } else {
                i + 1
            };
            let h = if j < k {
                j
            } else {
                j + 1
            };
            assert(rest[i] == t[g]);
            assert(rest[j] == t[h]);
        }
        lemma_gathered_in_any_order(front, rest, f);
        lemma_flat_map_concat(front, one, f);
        lemma_flat_map_concat(head + one, tail, f);
        lemma_flat_map_concat(head, one, f);
        lemma_flat_map_concat(head, tail, f);
        let x = head.flat_map(f);
        let y = one.flat_map(f);
        let z = tail.flat_map(f);
        vstd::seq_lib::lemma_multiset_commutative(front.flat_map(f), y);
        vstd::seq_lib::lemma_multiset_commutative(x + y, z);
        vstd::seq_lib::lemma_multiset_commutative(x, y);
        vstd::seq_lib::lemma_multiset_commutative(x, z);
        assert(s.flat_map(f).to_multiset() =~= t.flat_map(f).to_multiset());
    }
}

/// A report on classes is gathered from their names.
proof fn lemma_report_by_names(
    keys: Seq<Seq<char>>,
    order: Seq<SchemaClassView>,
    classes: Classes,
    attributes: Attributes,
)
    requires
        order.len() == keys.len(),
        forall|i: int| 0 <= i < keys.len() ==> #[trigger] order[i] == classes[keys[i]],
    ensures
        full_report(order, attributes) == keys.flat_map(
            |k: Seq<char>| class_report(classes[k], attributes),
        ),
{
    let f = |k: Seq<char>| class_report(classes[k], attributes);
    let g = |c: SchemaClassView| class_report(c, attributes);
    assert(order.map_values(g) =~= keys.map_values(f));
}

/// Two reports on one schema list the same errors, each as many times, though
/// perhaps in another order.
pub proof fn law_reports_agree(
    order: Seq<SchemaClassView>,
    other: Seq<SchemaClassView>,
    classes: Classes,
    attributes: Attributes,
)
    requires
        lists_values(order, classes),
        lists_values(other, classes),
    ensures
        full_report(order, attributes).to_multiset() == full_report(
            other,
            attributes,
        ).to_multiset(),
{
    let s = choose|keys: Seq<Seq<char>>| #[trigger]
        enumerates(keys, classes) && order == keys.map_values(|k: Seq<char>| classes[k]);
    let t = choose|keys: Seq<Seq<char>>| #[trigger]
        enumerates(keys, classes) && other == keys.map_values(|k: Seq<char>| classes[k]);
    assert forall|k: Seq<char>| #[trigger] s.contains(k) <==> t.contains(k) by {
        assert(s.contains(k) <==> classes.contains_key(k));
        assert(t.contains(k) <==> classes.contains_key(k));
    }
    lemma_report_by_names(s, order, classes, attributes);
    lemma_report_by_names(t, other, classes, attributes);
    lemma_gathered_in_any_order(
        s,
        t,
        |k: Seq<char>| class_report(classes[k], attributes),
    );
}

/// Of two lists of classes, one after the other, a class of the second stands
/// under its name, and else one of the first.
proof fn lemma_two_class_lists(some: Seq<SchemaClassView>, others: Seq<SchemaClassView>)
    ensures
        classes_by_name(some + others) == classes_by_name(some).union_prefer_right(
            classes_by_name(others),
        ),
    decreases others.len(),
{
    let all = some + others;
    if others.len() == 0 {
        assert(all =~= some);
    } else {
        assert(all.drop_last() =~= some + others.drop_last());
        assert(all.last() == others.last());
        lemma_two_class_lists(some, others.drop_last());
    }
    assert(classes_by_name(all) =~= classes_by_name(some).union_prefer_right(
        classes_by_name(others),
    ));
}

/// The report on two lists of classes that have no name in common lists what the
/// reports on each list, each error as many times.
pub proof fn law_reports_add_up(
    some: Seq<SchemaClassView>,
    others: Seq<SchemaClassView>,
    attributes: Attributes,
    order: Seq<SchemaClassView>,
    some_order: Seq<SchemaClassView>,
    others_order: Seq<SchemaClassView>,
)
    requires
        forall|i: int, j: int|
            0 <= i < some.len() && 0 <= j < others.len() ==> (#[trigger] some[i]).name != (
            #[trigger] others[j]).name,
        lists_values(order, classes_by_name(some + others)),
        lists_values(some_order, classes_by_name(some)),
        lists_values(others_order, classes_by_name(others)),
    ensures
        full_report(order, attributes).to_multiset() == full_report(
            some_order,
            attributes,
        ).to_multiset().add(full_report(others_order, attributes).to_multiset()),
{
    let m = classes_by_name(some);
    let n = classes_by_name(others);
    let all = classes_by_name(some + others);
    lemma_two_class_lists(some, others);
    let s = choose|keys: Seq<Seq<char>>| #[trigger]
        enumerates(keys, m) && some_order == keys.map_values(|k: Seq<char>| m[k]);
    let t = choose|keys: Seq<Seq<char>>| #[trigger]
        enumerates(keys, n) && others_order == keys.map_values(|k: Seq<char>| n[k]);
    let keys = s + t;
    let both = some_order + others_order;
    assert forall|k: Seq<char>| !(#[trigger] m.contains_key(k) && n.contains_key(k)) by {
        if m.contains_key(k) && n.contains_key(k) {
            law_only_listed_classes_stand(some, k);
            law_only_listed_classes_stand(others, k);
            let i = choose|i: int| 0 <= i < some.len() && some[i] == m[k];
            let j = choose|j: int| 0 <= j < others.len() && others[j] == n[k];
            assert(some[i].name != others[j].name);
        }
    }
    assert forall|k: Seq<char>| keys.contains(k) <==> #[trigger] all.contains_key(k) by {
        assert(s.contains(k) <==> m.contains_key(k));
        assert(t.contains(k) <==> n.contains_key(k));
        if s.contains(k) {
            let i = choose|i: int| 0 <= i < s.len() && s[i] == k;
            assert(keys[i] == k);
        }
        if t.contains(k) {
            let i = choose|i: int| 0 <= i < t.len() && t[i] == k;
            assert(keys[s.len() + i] == k);
        }
        if keys.contains(k) {
            let i = choose|i: int| 0 <= i < keys.len() && keys[i] == k;
            if i < s.len() {
                assert(s[i] == k);
            } else {
                assert(t[i - s.len()] == k);
            }
        }
    }
    assert forall|i: int| 0 <= i < s.len() implies m.contains_key(#[trigger] s[i]) by {
        assert(s.contains(s[i]));
    }
    assert forall|i: int| 0 <= i < t.len() implies n.contains_key(#[trigger] t[i]) by {
        assert(t.contains(t[i]));
    }
    assert forall|i: int, j: int|
        0 <= i < keys.len() && 0 <= j < keys.len() && i != j implies keys[i] != keys[j] by {
        if i < s.len() && j >= s.len() {
            assert(m.contains_key(s[i]) && n.contains_key(t[j - s.len()]));
        }
        if j < s.len() && i >= s.len() {
            assert(m.contains_key(s[j]) && n.contains_key(t[i - s.len()]));
        }
    }
    assert(both =~= keys.map_values(|k: Seq<char>| all[k]));
    assert(enumerates(keys, all));
    law_reports_agree(order, both, all, attributes);
    lemma_flat_map_concat(
        some_order,
        others_order,
        |c: SchemaClassView| class_report(c, attributes),
    );
    vstd::seq_lib::lemma_multiset_commutative(
        full_report(some_order, attributes),
        full_report(others_order, attributes),
    );
}

/// Classes are additive. What two groups of classes allow together is what
/// either allows, and what they demand together is what either demands; so what
/// one demands is demanded even where the other only allows it. And whatever is
/// demanded is allowed: no classes contradict each other.
pub proof fn law_classes_are_additive(
    some: Seq<SchemaClassView>,
    others: Seq<SchemaClassView>,
    a: Seq<char>,
)
    ensures
        allowed(some + others).contains(a) <==> allowed(some).contains(a) || allowed(
            others,
        ).contains(a),
        required(some + others).contains(a) <==> required(some).contains(a) || required(
            others,
        ).contains(a),
        required(some).contains(a) ==> allowed(some).contains(a),
{
    let all = some + others;
    let can = |c: SchemaClassView| c.allows();
    let must = |c: SchemaClassView| c.demands();
    lemma_union(some, others, can, a);
    lemma_union(some, others, must, a);
    lemma_flat_map_elements(some, can, a);
    lemma_flat_map_elements(some, must, a);
    if required(some).contains(a) {
        let i = choose|i: int| 0 <= i < some.len() && must(#[trigger] some[i]).contains(a);
        let demanded = some[i].demands();
        let k = choose|k: int| 0 <= k < demanded.len() && demanded[k] == a;
        assert(some[i].allows()[k] == a);
        assert(can(some[i]).contains(a));
    }
}

/// What is gathered from two lists is what is gathered from either.
proof fn lemma_union<A, B>(s: Seq<A>, t: Seq<A>, f: spec_fn(A) -> Seq<B>, b: B)
    ensures
        (s + t).flat_map(f).contains(b) <==> s.flat_map(f).contains(b) || t.flat_map(f).contains(b),
{
    let st = s + t;
    lemma_flat_map_elements(s, f, b);
    lemma_flat_map_elements(t, f, b);
    lemma_flat_map_elements(st, f, b);
    if st.flat_map(f).contains(b) {
        let i = choose|i: int| 0 <= i < st.len() && f(#[trigger] st[i]).contains(b);
        if i < s.len() {
            assert(s[i] == st[i]);
        } else {
            assert(t[i - s.len()] == st[i]);
        }
    }
    if s.flat_map(f).contains(b) {
        let i = choose|i: int| 0 <= i < s.len() && f(#[trigger] s[i]).contains(b);
        assert(st[i] == s[i]);
    }
    if t.flat_map(f).contains(b) {
        let i = choose|i: int| 0 <= i < t.len() && f(#[trigger] t[i]).contains(b);
        assert(st[s.len() + i] == t[i]);
    }
}

/// There is nothing wrong with any attribute if there is no first fault.
proof fn lemma_no_fault(
    attrs: AttrsView,
    may: Option<Seq<Seq<char>>>,
    attributes: Attributes,
    i: int,
)
    requires
        first_fault(attrs, may, attributes) is None,
        0 <= i < attrs.len(),
    ensures
        attribute_fault(attrs[i], may, attributes) is None,
    decreases attrs.len(),
{
    if i > 0 {
        assert(attrs.drop_first()[i - 1] == attrs[i]);
        lemma_no_fault(attrs.drop_first(), may, attributes, i - 1);
    }
}

/// An entry that complies has an identifier and at least one class; all its
/// classes are known; it has what they demand; and each attribute that it has is
/// known, is no phantom and accepts its values, and is allowed by a class unless
/// the entry is extensible.
pub proof fn law_complying_entry(attrs: AttrsView, schema: SchemaView)
    requires
        fault(attrs, schema) is None,
    ensures
        ava(attrs, "uuid"@) is Some,
        text_list(attrs, "class"@).len() > 0,
        forall|n: Seq<char>| #[trigger]
            text_list(attrs, "class"@).contains(n) ==> schema.classes.contains_key(n),
        forall|n: Seq<char>| #[trigger]
            required(classes_named(text_list(attrs, "class"@), schema.classes)).contains(n) ==> ava(
                attrs,
                n,
            ) is Some,
        forall|i: int|
            0 <= i < attrs.len() ==> {
                &&& schema.attributes.contains_key((#[trigger] attrs[i]).0)
                &&& !schema.attributes[attrs[i].0].phantom
                &&& schema.attributes[attrs[i].0].accepts(attrs[i].1)
                &&& is_extensible(attrs) || allowed(
                    classes_named(text_list(attrs, "class"@), schema.classes),
                ).contains(attrs[i].0)
            },
{
    let names = text_list(attrs, "class"@);
    let classes = classes_named(names, schema.classes);
    let may = if is_extensible(attrs) {
        None
    } else {
        Some(allowed(classes))
    };
    assert forall|n: Seq<char>| #[trigger] names.contains(n) implies schema.classes.contains_key(
        n,
    ) by {
        let i = choose|i: int| 0 <= i < names.len() && names[i] == n;
        let p = |n: Seq<char>| !schema.classes.contains_key(n);
        if p(names[i]) {
            names.lemma_filter_contains(p, i);
            assert(unknown_classes(names, schema.classes).contains(n));
        }
    }
    assert forall|n: Seq<char>| #[trigger] required(classes).contains(n) implies ava(
        attrs,
        n,
    ) is Some by {
        let all = required(classes);
        let i = choose|i: int| 0 <= i < all.len() && all[i] == n;
        let p = |n: Seq<char>| ava(attrs, n) is None;
        if p(all[i]) {
            all.lemma_filter_contains(p, i);
            assert(absent(all, attrs).contains(n));
        }
    }
    assert forall|i: int| 0 <= i < attrs.len() implies attribute_fault(
        #[trigger] attrs[i],
        may,
        schema.attributes,
    ) is None by {
        lemma_no_fault(attrs, may, schema.attributes, i);
    }
}

/// If a schema is consistent, no entry is refused because the schema is
/// corrupted.
pub proof fn law_consistent_schema_is_not_corrupted(attrs: AttrsView, schema: SchemaView)
    requires
        consistent(schema.classes, schema.attributes),
    ensures
        fault(attrs, schema) != Some(crate::error::SchemaErrorView::Corrupted),
{
    let names = text_list(attrs, "class"@);
    let classes = classes_named(names, schema.classes);
    let can = |c: SchemaClassView| c.allows();
    let may = if is_extensible(attrs) {
        None
    } else {
        Some(allowed(classes))
    };
    lemma_first_fault_kind(attrs, may, schema.attributes);
    if unknown_classes(names, schema.classes).len() == 0 {
        assert forall|n: Seq<char>| #[trigger]
            allowed(classes).contains(n) implies schema.attributes.contains_key(n) by {
            lemma_flat_map_elements(classes, can, n);
            let i = choose|i: int| 0 <= i < classes.len() && can(#[trigger] classes[i]).contains(n);
            let p = |n: Seq<char>| !schema.classes.contains_key(n);
            if p(names[i]) {
                names.lemma_filter_contains(p, i);
            }
            let c = schema.classes[names[i]];
            let k = choose|k: int| 0 <= k < c.allows().len() && c.allows()[k] == n;
            let demanded = c.demands().len();
            let optional = (c.systemmay + c.may).len();
            if k < c.systemmust.len() {
                assert(c.named()[optional + k] == n);
            } else if k < demanded {
                assert(c.named()[optional + k] == n);
            } else {
                assert(c.named()[k - demanded] == n);
            }
            assert(schema.classes[names[i]].named().contains(n));
        }
    }
}

/// What is wrong with an attribute of an entry is never that the schema is
/// corrupted.
proof fn lemma_first_fault_kind(
    attrs: AttrsView,
    may: Option<Seq<Seq<char>>>,
    attributes: Attributes,
)
    ensures
        first_fault(attrs, may, attributes) != Some(crate::error::SchemaErrorView::Corrupted),
    decreases attrs.len(),
{
    if attrs.len() > 0 {
        lemma_first_fault_kind(attrs.drop_first(), may, attributes);
    }
}

} // verus!
