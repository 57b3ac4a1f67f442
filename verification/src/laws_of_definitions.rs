//! What definitions are read from entries, and what entries define.
use crate::attribute::SchemaAttribute;
use crate::class::SchemaClass;
use crate::definition::{entry_of_attribute, entry_of_class};
use crate::entry::{Entry, SealedEntry};
use crate::error::OperationError;
use crate::schema::SchemaWriteTransaction;
use crate::value::{IndexType, PartialValue, SyntaxType, ValueSet};
use vstd::prelude::*;

verus! {

use crate::attribute::SchemaAttributeView;
use crate::class::SchemaClassView;
use crate::definition::{
    attribute_entry, class_entry, collected, definitions, entry_views, index_set, lemma_collected,
    only, text_set,
};
use crate::entry::{has_value, names_in_order, single, text_list, with_value, AttrsView};
use crate::error::OperationErrorView;
use crate::foreign::uuid_number;
use crate::laws_of_compliance::{bears, holds_value, lemma_ava};
use crate::schema::SchemaTransaction;
use crate::tables::lists_values;
use crate::text::{lower, texts};
use crate::value::{ascending, holds, inserted, PartialValueView, ValueView};

/// Whether an entry has an attribute with one value, and that is this.
pub open spec fn has_only(attrs: AttrsView, n: Seq<char>, p: PartialValueView) -> bool {
    exists|i: int|
        0 <= i < attrs.len() && (#[trigger] attrs[i]).0 == n && attrs[i].1.len() == 1
            && attrs[i].1[0].partial == p
}

/// Whether an entry has an attribute with one value, and that is this text, of any
/// kind of text.
pub open spec fn has_only_text(attrs: AttrsView, n: Seq<char>, s: Seq<char>) -> bool {
    ||| has_only(attrs, n, PartialValueView::Utf8(s))
    ||| has_only(attrs, n, PartialValueView::Iutf8(s))
    ||| has_only(attrs, n, PartialValueView::Iname(s))
}

/// Whether a list is that of the texts among the values of an attribute, in their
/// order, and empty if the entry does not have the attribute.
pub open spec fn lists_texts(attrs: AttrsView, n: Seq<char>, list: Seq<Seq<char>>) -> bool {
    &&& !bears(attrs, n) ==> list.len() == 0
    &&& forall|i: int|
        0 <= i < attrs.len() && (#[trigger] attrs[i]).0 == n ==> list == attrs[i].1.filter_map(
            |v: ValueView|
                    match v.partial {
                        PartialValueView::Utf8(s) => Some(s),
                        PartialValueView::Iutf8(s) => Some(s),
                        PartialValueView::Iname(s) => Some(s),
                        _ => None,
                    },
        )
}

/// Whether a list is that of the ways to index that the values of an attribute are,
/// in their order, and empty if the entry does not have the attribute.
pub open spec fn lists_indexes(attrs: AttrsView, n: Seq<char>, list: Seq<IndexType>) -> bool {
    &&& !bears(attrs, n) ==> list.len() == 0
    &&& forall|i: int|
        0 <= i < attrs.len() && (#[trigger] attrs[i]).0 == n ==> list.len() == attrs[i].1.len()
            && forall|j: int|
            0 <= j < list.len() ==> attrs[i].1[j].partial == PartialValueView::Index(
                #[trigger] list[j],
            )
}

/// An entry has one value by a name if and only if that stands there alone.
proof fn lemma_single(attrs: AttrsView, n: Seq<char>)
    requires
        names_in_order(attrs),
    ensures
        forall|p: PartialValueView| single(attrs, n) == Some(p) <==> #[trigger] has_only(
            attrs,
            n,
            p,
        ),
{
    lemma_ava(attrs, n);
    assert forall|p: PartialValueView| single(attrs, n) == Some(p) <==> #[trigger] has_only(
        attrs,
        n,
        p,
    ) by {
        if single(attrs, n) == Some(p) {
            let i = choose|i: int| 0 <= i < attrs.len() && (#[trigger] attrs[i]).0 == n;
            assert(attrs[i].1[0].partial == p);
        }
    }
}

/// The text that an entry has by a name is what stands there alone.
proof fn lemma_single_str(attrs: AttrsView, n: Seq<char>)
    requires
        names_in_order(attrs),
    ensures
        forall|s: Seq<char>| crate::entry::single_str(attrs, n) == Some(s)
            <==> #[trigger] has_only_text(attrs, n, s),
        crate::entry::single_str(attrs, n) is Some <==> exists|s: Seq<char>| #[trigger]
            has_only_text(attrs, n, s),
{
    lemma_single(attrs, n);
    assert forall|s: Seq<char>| crate::entry::single_str(attrs, n) == Some(s)
        <==> #[trigger] has_only_text(attrs, n, s) by {
        assert(has_only(attrs, n, PartialValueView::Utf8(s)) <==> single(attrs, n) == Some(
            PartialValueView::Utf8(s),
        ));
        assert(has_only(attrs, n, PartialValueView::Iutf8(s)) <==> single(attrs, n) == Some(
            PartialValueView::Iutf8(s),
        ));
        assert(has_only(attrs, n, PartialValueView::Iname(s)) <==> single(attrs, n) == Some(
            PartialValueView::Iname(s),
        ));
    }
    if crate::entry::single_str(attrs, n) is Some {
        assert(has_only_text(attrs, n, crate::entry::single_str(attrs, n)->0));
    }
}

/// The texts that an entry has by a name are those that stand there.
proof fn lemma_text_list(attrs: AttrsView, n: Seq<char>)
    requires
        names_in_order(attrs),
    ensures
        lists_texts(attrs, n, text_list(attrs, n)),
{
    lemma_ava(attrs, n);
    let f = |v: ValueView| v.partial.text();
    let g = |v: ValueView|
                    match v.partial {
                        PartialValueView::Utf8(s) => Some(s),
                        PartialValueView::Iutf8(s) => Some(s),
                        PartialValueView::Iname(s) => Some(s),
                        _ => None,
                    };
    assert(f =~= g);
}

/// Whether an entry has a value by a name is whether it stands there.
proof fn lemma_has_value(attrs: AttrsView, n: Seq<char>, p: PartialValueView)
    requires
        names_in_order(attrs),
    ensures
        has_value(attrs, n, p) <==> holds_value(attrs, n, p),
{
    lemma_ava(attrs, n);
    if has_value(attrs, n, p) {
        let i = choose|i: int| 0 <= i < attrs.len() && (#[trigger] attrs[i]).0 == n;
        let j = choose|j: int| 0 <= j < attrs[i].1.len() && (#[trigger] attrs[i].1[j]).partial == p;
        assert(attrs[i].1[j].partial == p);
    }
    if holds_value(attrs, n, p) {
        let (i, j) = choose|i: int, j: int|
            0 <= i < attrs.len() && attrs[i].0 == n && 0 <= j < attrs[i].1.len() && (
            #[trigger] attrs[i].1[j]).partial == p;
        assert(attrs[i].0 == n);
    }
}

/// An entry is read as a class if and only if it is of the class `classtype` and has
/// one text as `classname` and one as `description`. These are the name and the
/// description of the class, and the identifier of the entry is that of the class.
/// Each of its four lists has the texts of the attribute of the same name, whichever
/// of the others the entry has. Else the error names what is missing first.
pub proof fn law_class_is_read(e: SealedEntry, r: Result<SchemaClass, OperationError>)
    requires
        names_in_order(e.entry@),
        call_ensures(SchemaClass::try_from, (&e,), r),
    ensures
        ({
            let attrs = e.entry@;
            let kind = holds_value(attrs, "class"@, PartialValueView::Iutf8("classtype"@));
            let name = exists|s: Seq<char>| #[trigger] has_only_text(attrs, "classname"@, s);
            let description = exists|s: Seq<char>| #[trigger]
                has_only_text(attrs, "description"@, s);
            match r {
                Ok(c) => {
                    &&& kind
                    &&& c.uuid == e.uuid
                    &&& has_only_text(attrs, "classname"@, c.name@)
                    &&& has_only_text(attrs, "description"@, c.description@)
                    &&& lists_texts(attrs, "systemmay"@, texts(c.systemmay@))
                    &&& lists_texts(attrs, "may"@, texts(c.may@))
                    &&& lists_texts(attrs, "systemmust"@, texts(c.systemmust@))
                    &&& lists_texts(attrs, "must"@, texts(c.must@))
                },
                Err(x) => {
                    &&& !kind || !name || !description
                    &&& x@ == OperationErrorView::InvalidSchemaState(
                        if !kind {
                            "missing classtype"@
                        } else if !name {
                            "missing classname"@
                        } else {
                            "missing description"@
                        },
                    )
                },
            }
        }),
{
    let attrs = e.entry@;
    lemma_has_value(attrs, "class"@, PartialValueView::Iutf8("classtype"@));
    lemma_single_str(attrs, "classname"@);
    lemma_single_str(attrs, "description"@);
    lemma_text_list(attrs, "systemmay"@);
    lemma_text_list(attrs, "may"@);
    lemma_text_list(attrs, "systemmust"@);
    lemma_text_list(attrs, "must"@);
}

/// The ways to index that an entry has by a name are those that stand there, if all
/// that stands there is a way to index.
proof fn lemma_opt_index(attrs: AttrsView, n: Seq<char>)
    requires
        names_in_order(attrs),
    ensures
        crate::entry::opt_index(attrs, n) matches Ok(list) ==> lists_indexes(attrs, n, list),
        crate::entry::opt_index(attrs, n) is Err <==> exists|i: int, j: int|
            0 <= i < attrs.len() && attrs[i].0 == n && 0 <= j < attrs[i].1.len() && !((
            #[trigger] attrs[i].1[j]).partial is Index),
{
    lemma_ava(attrs, n);
    if crate::entry::opt_index(attrs, n) is Err {
        let i = choose|i: int| 0 <= i < attrs.len() && (#[trigger] attrs[i]).0 == n;
        let j = choose|j: int|
            0 <= j < attrs[i].1.len() && !((#[trigger] attrs[i].1[j]).partial is Index);
        assert(!(attrs[i].1[j].partial is Index));
    }
    if exists|i: int, j: int|
        0 <= i < attrs.len() && attrs[i].0 == n && 0 <= j < attrs[i].1.len() && !((
        #[trigger] attrs[i].1[j]).partial is Index) {
        let (i, j) = choose|i: int, j: int|
            0 <= i < attrs.len() && attrs[i].0 == n && 0 <= j < attrs[i].1.len() && !((
            #[trigger] attrs[i].1[j]).partial is Index);
        assert(attrs[i].0 == n);
    }
}

/// An entry is read as an attribute if and only if it is of the class
/// `attributetype`; has one text as `attributename` and one as `description`; has one
/// truth as `multivalue` and one as `unique`; has only ways to index as `index`, if it
/// has that; and has one kind of data as `syntax`. What these are, the attribute is.
/// It is a phantom if and only if the entry has only true as `phantom`. The identifier
/// of the entry is that of the attribute. Else the error names what is missing first.
pub proof fn law_attribute_is_read(e: SealedEntry, r: Result<SchemaAttribute, OperationError>)
    requires
        names_in_order(e.entry@),
        call_ensures(SchemaAttribute::try_from, (&e,), r),
    ensures
        ({
            let attrs = e.entry@;
            let kind = holds_value(attrs, "class"@, PartialValueView::Iutf8("attributetype"@));
            let name = exists|s: Seq<char>| #[trigger] has_only_text(attrs, "attributename"@, s);
            let description = exists|s: Seq<char>| #[trigger]
                has_only_text(attrs, "description"@, s);
            let multivalue = exists|b: bool|
                #[trigger] has_only(attrs, "multivalue"@, PartialValueView::Bool(b));
            let unique = exists|b: bool|
                #[trigger] has_only(attrs, "unique"@, PartialValueView::Bool(b));
            let strange = exists|i: int, j: int|
                0 <= i < attrs.len() && attrs[i].0 == "index"@ && 0 <= j < attrs[i].1.len() && !((
                #[trigger] attrs[i].1[j]).partial is Index);
            let syntax = exists|t: SyntaxType|
                #[trigger] has_only(attrs, "syntax"@, PartialValueView::Syntax(t));
            match r {
                Ok(a) => {
                    &&& kind && !strange
                    &&& a.uuid == e.uuid
                    &&& has_only_text(attrs, "attributename"@, a.name@)
                    &&& has_only_text(attrs, "description"@, a.description@)
                    &&& has_only(attrs, "multivalue"@, PartialValueView::Bool(a.multivalue))
                    &&& has_only(attrs, "unique"@, PartialValueView::Bool(a.unique))
                    &&& a.phantom <==> has_only(attrs, "phantom"@, PartialValueView::Bool(true))
                    &&& lists_indexes(attrs, "index"@, a.index@)
                    &&& has_only(attrs, "syntax"@, PartialValueView::Syntax(a.syntax))
                },
                Err(x) => {
                    &&& !kind || !name || !description || !multivalue || !unique || strange
                        || !syntax
                    &&& x@ == OperationErrorView::InvalidSchemaState(
                        if !kind {
                            "missing attributetype"@
                        } else if !name {
                            "missing attributename"@
                        } else if !description {
                            "missing description"@
                        } else if !multivalue {
                            "missing multivalue"@
                        } else if !unique {
                            "missing unique"@
                        } else if strange {
                            "Invalid index"@
                        } else {
                            "missing syntax"@
                        },
                    )
                },
            }
        }),
{
    let attrs = e.entry@;
    lemma_has_value(attrs, "class"@, PartialValueView::Iutf8("attributetype"@));
    lemma_single_str(attrs, "attributename"@);
    lemma_single_str(attrs, "description"@);
    lemma_single(attrs, "multivalue"@);
    lemma_single(attrs, "unique"@);
    lemma_single(attrs, "phantom"@);
    lemma_single(attrs, "syntax"@);
    lemma_opt_index(attrs, "index"@);
    let multivalue = crate::entry::single_bool(attrs, "multivalue"@);
    let unique = crate::entry::single_bool(attrs, "unique"@);
    let syntax = crate::entry::single_syntax(attrs, "syntax"@);
    if multivalue is Some {
        assert(has_only(attrs, "multivalue"@, PartialValueView::Bool(multivalue->0)));
    }
    if unique is Some {
        assert(has_only(attrs, "unique"@, PartialValueView::Bool(unique->0)));
    }
    if syntax is Some {
        assert(has_only(attrs, "syntax"@, PartialValueView::Syntax(syntax->0)));
    }
    assert(has_only(attrs, "phantom"@, PartialValueView::Bool(true)) <==> single(
        attrs,
        "phantom"@,
    ) == Some(PartialValueView::Bool(true)));
}

/// What an entry holds by the name that stands at a place is what stands there.
proof fn lemma_holds_at(attrs: AttrsView, k: int)
    requires
        names_in_order(attrs),
        0 <= k < attrs.len(),
    ensures
        forall|p: PartialValueView| #[trigger]
            holds_value(attrs, attrs[k].0, p) <==> holds(attrs[k].1, p),
{
    lemma_ava(attrs, attrs[k].0);
    assert forall|p: PartialValueView| #[trigger]
        holds_value(attrs, attrs[k].0, p) <==> holds(attrs[k].1, p) by {
        lemma_has_value(attrs, attrs[k].0, p);
    }
}

/// The set of one value holds that.
proof fn lemma_only(p: PartialValueView)
    ensures
        forall|q: PartialValueView| #[trigger] holds(only(p), q) <==> q == p,
        ascending(only(p)),
        forall|i: int| 0 <= i < only(p).len() ==> (#[trigger] only(p)[i]).valid,
{
    assert(only(p)[0].partial == p);
}

/// The set of some texts holds each of them in lower case.
proof fn lemma_text_set_holds(names: Seq<Seq<char>>)
    ensures
        forall|q: PartialValueView| #[trigger]
            holds(text_set(names), q) <==> exists|i: int|
                0 <= i < names.len() && q == PartialValueView::Iutf8(lower(#[trigger] names[i])),
        ascending(text_set(names)),
        forall|i: int| 0 <= i < text_set(names).len() ==> (#[trigger] text_set(names)[i]).valid,
{
    let values = names.map_values(|n: Seq<char>| PartialValueView::Iutf8(lower(n)));
    lemma_collected(values);
    assert forall|q: PartialValueView| #[trigger]
        holds(text_set(names), q) <==> exists|i: int|
            0 <= i < names.len() && q == PartialValueView::Iutf8(lower(#[trigger] names[i])) by {
        assert(holds(collected(values), q) <==> values.contains(q));
        if values.contains(q) {
            let i = choose|i: int| 0 <= i < values.len() && values[i] == q;
            assert(q == PartialValueView::Iutf8(lower(names[i])));
        }
        if exists|i: int|
            0 <= i < names.len() && q == PartialValueView::Iutf8(lower(#[trigger] names[i])) {
            let i = choose|i: int|
                0 <= i < names.len() && q == PartialValueView::Iutf8(lower(#[trigger] names[i]));
            assert(values[i] == q);
        }
    }
}

/// The set of some ways to index holds each of them.
proof fn lemma_index_set_holds(index: Seq<IndexType>)
    ensures
        forall|q: PartialValueView| #[trigger]
            holds(index_set(index), q) <==> q is Index && index.contains(q->Index_0),
        ascending(index_set(index)),
        forall|i: int| 0 <= i < index_set(index).len() ==> (#[trigger] index_set(index)[i]).valid,
{
    let values = index.map_values(|i: IndexType| PartialValueView::Index(i));
    lemma_collected(values);
    assert forall|q: PartialValueView| #[trigger]
        holds(index_set(index), q) <==> q is Index && index.contains(q->Index_0) by {
        assert(holds(collected(values), q) <==> values.contains(q));
        if values.contains(q) {
            let i = choose|i: int| 0 <= i < values.len() && values[i] == q;
            assert(index[i] == q->Index_0);
        }
        if q is Index && index.contains(q->Index_0) {
            let i = choose|i: int| 0 <= i < index.len() && index[i] == q->Index_0;
            assert(values[i] == q);
        }
    }
}

/// The set of three classes holds these.
proof fn lemma_class_set(names: Seq<Seq<char>>, c: Seq<char>)
    requires
        lower(c) == c,
        names == seq!["object"@, "system"@, c],
    ensures
        forall|q: PartialValueView| #[trigger]
            holds(text_set(names), q) <==> q == PartialValueView::Iutf8(
                "object"@,
            ) || q == PartialValueView::Iutf8("system"@) || q == PartialValueView::Iutf8(c),
{
    lemma_text_set_holds(names);
    assert(lower("object"@) =~= "object"@) by {
        reveal_strlit("object");
    }
    assert(lower("system"@) =~= "system"@) by {
        reveal_strlit("system");
    }
    assert forall|q: PartialValueView| #[trigger]
        holds(text_set(names), q) <==> q == PartialValueView::Iutf8("object"@) || q
            == PartialValueView::Iutf8("system"@) || q == PartialValueView::Iutf8(c) by {
        assert(names[0] == "object"@ && names[1] == "system"@ && names[2] == c);
    }
}

/// The entry that defines an attribute has nine attributes. It is of the classes
/// `object`, `system` and `attributetype`, and of no other. Each other attribute
/// holds what the definition has under that name, and nothing else; the name is in
/// lower case. All stands in ascending order.
pub proof fn law_attribute_is_written(a: SchemaAttribute, e: Entry)
    requires
        call_ensures(entry_of_attribute, (&a,), e),
    ensures
        names_in_order(e@),
        forall|n: Seq<char>| #[trigger]
            bears(e@, n) <==> n == "attributename"@ || n == "class"@ || n == "description"@ || n == "index"@ || n == "multivalue"@ || n == "phantom"@ || n == "syntax"@ || n == "unique"@ || n == "uuid"@,
        forall|p: PartialValueView| #[trigger]
            holds_value(e@, "class"@, p) <==> p == PartialValueView::Iutf8("object"@) || p
                == PartialValueView::Iutf8("system"@) || p == PartialValueView::Iutf8(
                "attributetype"@,
            ),
        forall|p: PartialValueView| #[trigger]
            holds_value(e@, "attributename"@, p) <==> p == PartialValueView::Iutf8(lower(a.name@)),
        forall|p: PartialValueView| #[trigger]
            holds_value(e@, "description"@, p) <==> p == PartialValueView::Utf8(a.description@),
        forall|p: PartialValueView| #[trigger]
            holds_value(e@, "index"@, p) <==> p is Index && a.index@.contains(p->Index_0),
        forall|p: PartialValueView| #[trigger]
            holds_value(e@, "multivalue"@, p) <==> p == PartialValueView::Bool(a.multivalue),
        forall|p: PartialValueView| #[trigger]
            holds_value(e@, "phantom"@, p) <==> p == PartialValueView::Bool(a.phantom),
        forall|p: PartialValueView| #[trigger]
            holds_value(e@, "syntax"@, p) <==> p == PartialValueView::Syntax(a.syntax),
        forall|p: PartialValueView| #[trigger]
            holds_value(e@, "unique"@, p) <==> p == PartialValueView::Bool(a.unique),
        forall|p: PartialValueView| #[trigger]
            holds_value(e@, "uuid"@, p) <==> p == PartialValueView::Uuid(uuid_number(a.uuid)),
        forall|i: int| 0 <= i < e@.len() ==> ascending((#[trigger] e@[i]).1),
        forall|i: int, j: int|
            0 <= i < e@.len() && 0 <= j < e@[i].1.len() ==> (#[trigger] e@[i].1[j]).valid,
{
    let attrs = e@;
    let d = a@;
    assert(attrs == attribute_entry(d));
    crate::definition::lemma_attribute_entry_names(d);
    assert(lower("attributetype"@) =~= "attributetype"@) by {
        reveal_strlit("attributetype");
    }
    let classes = seq!["object"@, "system"@, "attributetype"@];
    lemma_class_set(classes, "attributetype"@);
    lemma_text_set_holds(classes);
    lemma_index_set_holds(d.index);
    lemma_only(PartialValueView::Iutf8(lower(d.name)));
    lemma_only(PartialValueView::Utf8(d.description));
    lemma_only(PartialValueView::Bool(d.multivalue));
    lemma_only(PartialValueView::Bool(d.phantom));
    lemma_only(PartialValueView::Bool(d.unique));
    lemma_only(PartialValueView::Syntax(d.syntax));
    lemma_only(PartialValueView::Uuid(uuid_number(d.uuid)));
    assert(attrs[0].0 == "attributename"@);
    lemma_holds_at(attrs, 0);
    assert(attrs[1].0 == "class"@);
    lemma_holds_at(attrs, 1);
    assert(attrs[2].0 == "description"@);
    lemma_holds_at(attrs, 2);
    assert(attrs[3].0 == "index"@);
    lemma_holds_at(attrs, 3);
    assert(attrs[4].0 == "multivalue"@);
    lemma_holds_at(attrs, 4);
    assert(attrs[5].0 == "phantom"@);
    lemma_holds_at(attrs, 5);
    assert(attrs[6].0 == "syntax"@);
    lemma_holds_at(attrs, 6);
    assert(attrs[7].0 == "unique"@);
    lemma_holds_at(attrs, 7);
    assert(attrs[8].0 == "uuid"@);
    lemma_holds_at(attrs, 8);
}

/// The entry that defines a class has eight attributes. It is of the classes
/// `object`, `system` and `classtype`, and of no other. Each other attribute holds what
/// the definition has under that name, and nothing else; names are in lower case. All
/// stands in ascending order.
pub proof fn law_class_is_written(c: SchemaClass, e: Entry)
    requires
        call_ensures(entry_of_class, (&c,), e),
    ensures
        names_in_order(e@),
        forall|n: Seq<char>| #[trigger]
            bears(e@, n) <==> n == "class"@ || n == "classname"@ || n == "description"@ || n == "may"@ || n == "must"@ || n == "systemmay"@ || n == "systemmust"@ || n == "uuid"@,
        forall|p: PartialValueView| #[trigger]
            holds_value(e@, "class"@, p) <==> p == PartialValueView::Iutf8("object"@) || p
                == PartialValueView::Iutf8("system"@) || p == PartialValueView::Iutf8("classtype"@),
        forall|p: PartialValueView| #[trigger]
            holds_value(e@, "classname"@, p) <==> p == PartialValueView::Iutf8(lower(c.name@)),
        forall|p: PartialValueView| #[trigger]
            holds_value(e@, "description"@, p) <==> p == PartialValueView::Utf8(c.description@),
        forall|p: PartialValueView| #[trigger]
            holds_value(e@, "may"@, p) <==> exists|i: int|
                0 <= i < c.may@.len() && p == PartialValueView::Iutf8(
                    lower((#[trigger] c.may@[i])@),
                ),
        forall|p: PartialValueView| #[trigger]
            holds_value(e@, "must"@, p) <==> exists|i: int|
                0 <= i < c.must@.len() && p == PartialValueView::Iutf8(
                    lower((#[trigger] c.must@[i])@),
                ),
        forall|p: PartialValueView| #[trigger]
            holds_value(e@, "systemmay"@, p) <==> exists|i: int|
                0 <= i < c.systemmay@.len() && p == PartialValueView::Iutf8(
                    lower((#[trigger] c.systemmay@[i])@),
                ),
        forall|p: PartialValueView| #[trigger]
            holds_value(e@, "systemmust"@, p) <==> exists|i: int|
                0 <= i < c.systemmust@.len() && p == PartialValueView::Iutf8(
                    lower((#[trigger] c.systemmust@[i])@),
                ),
        forall|p: PartialValueView| #[trigger]
            holds_value(e@, "uuid"@, p) <==> p == PartialValueView::Uuid(uuid_number(c.uuid)),
        forall|i: int| 0 <= i < e@.len() ==> ascending((#[trigger] e@[i]).1),
        forall|i: int, j: int|
            0 <= i < e@.len() && 0 <= j < e@[i].1.len() ==> (#[trigger] e@[i].1[j]).valid,
{
    let attrs = e@;
    let d = c@;
    assert(attrs == class_entry(d));
    crate::definition::lemma_class_entry_names(d);
    assert(lower("classtype"@) =~= "classtype"@) by {
        reveal_strlit("classtype");
    }
    let classes = seq!["object"@, "system"@, "classtype"@];
    lemma_class_set(classes, "classtype"@);
    lemma_text_set_holds(classes);
    lemma_only(PartialValueView::Iutf8(lower(d.name)));
    lemma_only(PartialValueView::Utf8(d.description));
    lemma_only(PartialValueView::Uuid(uuid_number(d.uuid)));
    lemma_names_hold(c.may@);
    lemma_names_hold(c.must@);
    lemma_names_hold(c.systemmay@);
    lemma_names_hold(c.systemmust@);
    assert(attrs[0].0 == "class"@);
    lemma_holds_at(attrs, 0);
    assert(attrs[1].0 == "classname"@);
    lemma_holds_at(attrs, 1);
    assert(attrs[2].0 == "description"@);
    lemma_holds_at(attrs, 2);
    assert(attrs[3].0 == "may"@);
    lemma_holds_at(attrs, 3);
    assert(attrs[4].0 == "must"@);
    lemma_holds_at(attrs, 4);
    assert(attrs[5].0 == "systemmay"@);
    lemma_holds_at(attrs, 5);
    assert(attrs[6].0 == "systemmust"@);
    lemma_holds_at(attrs, 6);
    assert(attrs[7].0 == "uuid"@);
    lemma_holds_at(attrs, 7);
}

/// The set of some names holds each of them in lower case.
proof fn lemma_names_hold(names: Seq<String>)
    ensures
        forall|q: PartialValueView| #[trigger]
            holds(text_set(texts(names)), q) <==> exists|i: int|
                0 <= i < names.len() && q == PartialValueView::Iutf8(lower((#[trigger] names[i])@)),
        ascending(text_set(texts(names))),
        forall|i: int|
            0 <= i < text_set(texts(names)).len() ==> (#[trigger] text_set(texts(names))[i]).valid,
{
    lemma_text_set_holds(texts(names));
    assert forall|q: PartialValueView| #[trigger]
        holds(text_set(texts(names)), q) <==> exists|i: int|
            0 <= i < names.len() && q == PartialValueView::Iutf8(
                lower((#[trigger] names[i])@),
            ) by {
        if exists|i: int|
            0 <= i < texts(names).len() && q == PartialValueView::Iutf8(
                lower(#[trigger] texts(names)[i]),
            ) {
            let i = choose|i: int|
                0 <= i < texts(names).len() && q == PartialValueView::Iutf8(
                    lower(#[trigger] texts(names)[i]),
                );
            assert(q == PartialValueView::Iutf8(lower(names[i]@)));
        }
        if exists|i: int|
            0 <= i < names.len() && q == PartialValueView::Iutf8(lower((#[trigger] names[i])@)) {
            let i = choose|i: int|
                0 <= i < names.len() && q == PartialValueView::Iutf8(
                    lower((#[trigger] names[i])@),
                );
            assert(q == PartialValueView::Iutf8(lower(texts(names)[i])));
        }
    }
}

/// A schema is written out as one entry for each attribute and after them one for
/// each class: the entries that define them, each kind in some order.
pub proof fn law_schema_is_written<'a>(txn: SchemaWriteTransaction<'a>, r: Vec<Entry>)
    requires
        call_ensures(SchemaWriteTransaction::<'a>::to_entries, (&txn,), r),
    ensures
        exists|a: Seq<SchemaAttributeView>, c: Seq<SchemaClassView>|
            {
                &&& #[trigger] lists_values(a, txn.schema().attributes)
                &&& #[trigger] lists_values(c, txn.schema().classes)
                &&& r@.len() == a.len() + c.len()
                &&& forall|i: int| 0 <= i < a.len() ==> (#[trigger] r@[i])@ == attribute_entry(a[i])
                &&& forall|i: int|
                    a.len() <= i < r@.len() ==> (#[trigger] r@[i])@ == class_entry(c[i - a.len()])
            },
{
    let (a, c) = choose|a: Seq<SchemaAttributeView>, c: Seq<SchemaClassView>| #[trigger]
        lists_values(a, txn.schema().attributes) && #[trigger] lists_values(
            c,
            txn.schema().classes,
        ) && entry_views(r@) == definitions(a, c);
    assert(entry_views(r@).len() == r@.len());
    assert forall|i: int| 0 <= i < r@.len() implies (#[trigger] r@[i])@ == definitions(a, c)[i] by {
        assert(entry_views(r@)[i] == r@[i]@);
    }
    assert(lists_values(a, txn.schema().attributes) && lists_values(c, txn.schema().classes));
}

/// An entry has an attribute value if and only if the value stands under the name.
pub proof fn law_value_presence(e: Entry, attr: &str, p: PartialValue, r: bool)
    requires
        names_in_order(e@),
        call_ensures(Entry::attribute_value_pres, (&e, attr, &p), r),
    ensures
        r <==> holds_value(e@, attr@, p@),
{
    lemma_has_value(e@, attr@, p@);
}

/// An entry gives the values that stand under a name, if any stand there.
pub proof fn law_values_by_name<'a>(e: Entry, attr: &str, r: Option<&'a ValueSet>)
    requires
        names_in_order(e@),
        call_ensures(Entry::get_ava_set, (&e, attr), r),
    ensures
        r is None <==> !bears(e@, attr@),
        r matches Some(vs) ==> exists|i: int|
            0 <= i < e@.len() && #[trigger] e@[i] == (attr@, vs@),
{
    lemma_ava(e@, attr@);
    if bears(e@, attr@) {
        let i = choose|i: int| 0 <= i < e@.len() && (#[trigger] e@[i]).0 == attr@;
        assert(e@[i] == (attr@, e@[i].1));
    }
}

/// To add a value to an attribute puts it into the values of that attribute, or makes
/// it the only one if the entry does not have the attribute. All other attributes stay
/// as they are, and the order is kept.
pub proof fn law_value_is_added(
    attrs: AttrsView,
    attr: Seq<char>,
    v: ValueView,
    other: (Seq<char>, Seq<ValueView>),
)
    requires
        names_in_order(attrs),
    ensures
        names_in_order(with_value(attrs, attr, v)),
        other.0 != attr ==> (with_value(attrs, attr, v).contains(other) <==> attrs.contains(other)),
        !bears(attrs, attr) ==> with_value(attrs, attr, v).contains((attr, seq![v])),
        forall|i: int|
            0 <= i < attrs.len() && (#[trigger] attrs[i]).0 == attr ==> with_value(
                attrs,
                attr,
                v,
            ).contains((attr, inserted(attrs[i].1, v))),
{
    let k = crate::entry::lemma_place_of_name(attrs, attr);
    crate::entry::lemma_with_value(attrs, attr, v, k);
    let all = with_value(attrs, attr, v);
    let there = k < attrs.len() && attrs[k].0 == attr;
    crate::order::lemma_text_irreflexive(attr);
    assert forall|i: int| 0 <= i < attrs.len() && (#[trigger] attrs[i]).0 == attr implies i == k by {
        if i > k {
            crate::order::lemma_text_total(attrs[k].0, attr);
            assert(crate::order::text_precedes(attrs[k].0, attrs[i].0));
        }
    }
    if there {
        assert(all[k] == (attr, inserted(attrs[k].1, v)));
    } else {
        assert(all[k] == (attr, seq![v]));
    }
    if other.0 != attr {
        if all.contains(other) {
            let i = choose|i: int| 0 <= i < all.len() && all[i] == other;
            if there || i < k {
                assert(attrs[i] == other);
            } else {
                assert(attrs[i - 1] == other);
            }
        }
        if attrs.contains(other) {
            let i = choose|i: int| 0 <= i < attrs.len() && attrs[i] == other;
            if there || i < k {
                assert(all[i] == other);
            } else {
                assert(all[i + 1] == other);
            }
        }
    }
}

/// An entry gives the one value of an attribute that has just one.
pub proof fn law_single_value<'a>(e: Entry, attr: &str, r: Option<&'a PartialValue>)
    requires
        names_in_order(e@),
        call_ensures(Entry::get_ava_single, (&e, attr), r),
    ensures
        r matches Some(p) ==> has_only(e@, attr@, p@),
        r is None ==> forall|p: PartialValueView| !(#[trigger] has_only(e@, attr@, p)),
{
    lemma_single(e@, attr@);
}

/// An entry gives the one value of an attribute that has just one, if it is text.
pub proof fn law_single_text<'a>(e: Entry, attr: &str, r: Option<&'a String>)
    requires
        names_in_order(e@),
        call_ensures(Entry::get_ava_single_str, (&e, attr), r),
    ensures
        r matches Some(s) ==> has_only_text(e@, attr@, s@),
        r is None ==> forall|s: Seq<char>| !(#[trigger] has_only_text(e@, attr@, s)),
{
    lemma_single_str(e@, attr@);
}

/// An entry gives the one value of an attribute that has just one, if it is true or
/// false.
pub proof fn law_single_truth(e: Entry, attr: &str, r: Option<bool>, b: bool)
    requires
        names_in_order(e@),
        call_ensures(Entry::get_ava_single_bool, (&e, attr), r),
    ensures
        r == Some(b) <==> has_only(e@, attr@, PartialValueView::Bool(b)),
{
    lemma_single(e@, attr@);
    assert(has_only(e@, attr@, PartialValueView::Bool(b)) <==> single(e@, attr@) == Some(
        PartialValueView::Bool(b),
    ));
}

/// An entry gives the one value of an attribute that has just one, if it is a kind of
/// data.
pub proof fn law_single_syntax(e: Entry, attr: &str, r: Option<SyntaxType>, t: SyntaxType)
    requires
        names_in_order(e@),
        call_ensures(Entry::get_ava_single_syntax, (&e, attr), r),
    ensures
        r == Some(t) <==> has_only(e@, attr@, PartialValueView::Syntax(t)),
{
    lemma_single(e@, attr@);
    assert(has_only(e@, attr@, PartialValueView::Syntax(t)) <==> single(e@, attr@) == Some(
        PartialValueView::Syntax(t),
    ));
}

/// An entry gives the ways to index that an attribute has, unless some value of it is
/// none.
pub proof fn law_indexes_by_name(e: Entry, attr: &str, r: Result<Vec<IndexType>, ()>)
    requires
        names_in_order(e@),
        call_ensures(Entry::get_ava_opt_index, (&e, attr), r),
    ensures
        r matches Ok(list) ==> lists_indexes(e@, attr@, list@),
        r is Err <==> exists|i: int, j: int|
            0 <= i < e@.len() && e@[i].0 == attr@ && 0 <= j < e@[i].1.len() && !((
            #[trigger] e@[i].1[j]).partial is Index),
{
    lemma_opt_index(e@, attr@);
}

/// An entry gives the texts that an attribute has.
pub proof fn law_texts_by_name(e: Entry, attr: &str, r: Vec<String>)
    requires
        names_in_order(e@),
        call_ensures(Entry::get_ava_as_str, (&e, attr), r),
    ensures
        lists_texts(e@, attr@, texts(r@)),
{
    lemma_text_list(e@, attr@);
}

/// The contents of an attribute and of a class are what their fields hold.
pub proof fn law_definition_contents(a: SchemaAttribute, c: SchemaClass)
    ensures
        a@.name == a.name@,
        a@.uuid == a.uuid,
        a@.description == a.description@,
        a@.multivalue == a.multivalue,
        a@.unique == a.unique,
        a@.phantom == a.phantom,
        a@.index == a.index@,
        a@.syntax == a.syntax,
        c@.name == c.name@,
        c@.uuid == c.uuid,
        c@.description == c.description@,
        c@.systemmay == texts(c.systemmay@),
        c@.may == texts(c.may@),
        c@.systemmust == texts(c.systemmust@),
        c@.must == texts(c.must@),
{
}

} // verus!
