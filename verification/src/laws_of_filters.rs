//! What it is for a filter to be valid, and what becomes of it.
use crate::attribute::SchemaAttribute;
use crate::error::SchemaError;
use crate::filter::{check_term, Filter};
use crate::schema::SchemaTransaction;
use crate::value::PartialValue;
use hashbrown::HashMap;
use vstd::prelude::*;

verus! {

use crate::error::SchemaErrorView;
use crate::filter::{lemma_filter_views, validated, validated_all, FilterView};
use crate::laws_of_values::{kind_of, law_admits};
use crate::tables::{attributes_in, Attributes};
use crate::text::lower;

/// Whether a filter speaks, at every place, of attributes that there are and of
/// values of their kinds, and joins nothing nowhere.
pub open spec fn is_sound(f: FilterView, attributes: Attributes) -> bool
    decreases f,
{
    match f {
        FilterView::Eq(a, v) => attributes.contains_key(lower(a)) && kind_of(v)
            == attributes[lower(a)].syntax,
        FilterView::Sub(a, v) => attributes.contains_key(lower(a)) && kind_of(v)
            == attributes[lower(a)].syntax,
        FilterView::Pres(a) => attributes.contains_key(lower(a)),
        FilterView::Or(fs) => fs.len() > 0 && forall|i: int|
            0 <= i < fs.len() ==> is_sound(#[trigger] fs[i], attributes),
        FilterView::And(fs) => fs.len() > 0 && forall|i: int|
            0 <= i < fs.len() ==> is_sound(#[trigger] fs[i], attributes),
        FilterView::AndNot(g) => is_sound(*g, attributes),
    }
}

/// Whether `g` is `f` with the names of attributes in lower case, and otherwise the
/// same at every place.
pub open spec fn is_lowered(f: FilterView, g: FilterView) -> bool
    decreases f,
{
    match f {
        FilterView::Eq(a, v) => g == FilterView::Eq(lower(a), v),
        FilterView::Sub(a, v) => g == FilterView::Sub(lower(a), v),
        FilterView::Pres(a) => g == FilterView::Pres(lower(a)),
        FilterView::Or(fs) => g is Or && g->Or_0.len() == fs.len() && forall|i: int|
            0 <= i < fs.len() ==> is_lowered(#[trigger] fs[i], g->Or_0[i]),
        FilterView::And(fs) => g is And && g->And_0.len() == fs.len() && forall|i: int|
            0 <= i < fs.len() ==> is_lowered(#[trigger] fs[i], g->And_0[i]),
        FilterView::AndNot(h) => g is AndNot && is_lowered(*h, *g->AndNot_0),
    }
}

/// Whether an error is what is first wrong with a filter.
pub open spec fn is_first_wrong(f: FilterView, e: SchemaErrorView, attributes: Attributes) -> bool
    decreases f,
{
    match f {
        FilterView::Eq(a, v) => if !attributes.contains_key(lower(a)) {
            e == SchemaErrorView::InvalidAttribute(lower(a))
        } else {
            kind_of(v) != attributes[lower(a)].syntax && e
                == SchemaErrorView::InvalidAttributeSyntax(lower(a))
        },
        FilterView::Sub(a, v) => if !attributes.contains_key(lower(a)) {
            e == SchemaErrorView::InvalidAttribute(lower(a))
        } else {
            kind_of(v) != attributes[lower(a)].syntax && e
                == SchemaErrorView::InvalidAttributeSyntax(lower(a))
        },
        FilterView::Pres(a) => !attributes.contains_key(lower(a)) && e
            == SchemaErrorView::InvalidAttribute(lower(a)),
        FilterView::Or(fs) => {
            ||| fs.len() == 0 && e == SchemaErrorView::EmptyFilter
            ||| exists|k: int|
                0 <= k < fs.len() && is_first_wrong(#[trigger] fs[k], e, attributes) && forall|
                    j: int,
                |
                    0 <= j < k ==> is_sound(#[trigger] fs[j], attributes)
        },
        FilterView::And(fs) => {
            ||| fs.len() == 0 && e == SchemaErrorView::EmptyFilter
            ||| exists|k: int|
                0 <= k < fs.len() && is_first_wrong(#[trigger] fs[k], e, attributes) && forall|
                    j: int,
                |
                    0 <= j < k ==> is_sound(#[trigger] fs[j], attributes)
        },
        FilterView::AndNot(g) => is_first_wrong(*g, e, attributes),
    }
}

/// A filter is valid if and only if it is sound. It then comes back with the names
/// of attributes in lower case and otherwise as it was: terms as the same terms with
/// the same values, `Or` and `And` as the same connective over as many filters, each
/// the valid form of the one in its place, and `AndNot` as the `AndNot` of the valid
/// form of what it negates. Else the error is what is first wrong with it.
pub proof fn law_valid_filter<T: SchemaTransaction>(
    f: Filter,
    txn: T,
    r: Result<Filter, SchemaError>,
)
    requires
        call_ensures(Filter::validate::<T>, (&f, &txn), r),
    ensures
        r is Ok <==> is_sound(f.view(), txn.schema().attributes),
        r matches Ok(g) ==> is_lowered(f.view(), g.view()),
        r matches Err(e) ==> is_first_wrong(f.view(), e@, txn.schema().attributes),
{
    lemma_validated(f.view(), txn.schema().attributes);
}

/// What `validated` makes of a filter.
proof fn lemma_validated(f: FilterView, attributes: Attributes)
    ensures
        validated(f, attributes) is Ok <==> is_sound(f, attributes),
        validated(f, attributes) matches Ok(g) ==> is_lowered(f, g),
        validated(f, attributes) matches Err(e) ==> is_first_wrong(f, e, attributes),
    decreases f,
{
    match f {
        FilterView::Eq(a, v) => {
            law_admits(attributes[lower(a)].syntax, v);
        },
        FilterView::Sub(a, v) => {
            law_admits(attributes[lower(a)].syntax, v);
        },
        FilterView::Pres(_) => {},
        FilterView::Or(fs) => {
            lemma_validated_all(fs, attributes);
        },
        FilterView::And(fs) => {
            lemma_validated_all(fs, attributes);
        },
        FilterView::AndNot(g) => {
            lemma_validated(*g, attributes);
        },
    }
}

/// What `validated_all` makes of filters.
proof fn lemma_validated_all(fs: Seq<FilterView>, attributes: Attributes)
    ensures
        validated_all(fs, attributes) is Ok <==> forall|i: int|
            0 <= i < fs.len() ==> is_sound(#[trigger] fs[i], attributes),
        validated_all(fs, attributes) matches Ok(gs) ==> gs.len() == fs.len() && forall|i: int|
            0 <= i < fs.len() ==> is_lowered(#[trigger] fs[i], gs[i]),
        validated_all(fs, attributes) matches Err(e) ==> exists|k: int|
            0 <= k < fs.len() && is_first_wrong(#[trigger] fs[k], e, attributes) && forall|j: int|
                0 <= j < k ==> is_sound(#[trigger] fs[j], attributes),
    decreases fs,
{
    if fs.len() > 0 {
        let front = fs.drop_last();
        let n = fs.len() - 1;
        lemma_validated_all(front, attributes);
        lemma_validated(fs.last(), attributes);
        assert(fs[n] == fs.last());
        assert forall|i: int| 0 <= i < n implies #[trigger] fs[i] == front[i] by {}
        assert forall|i: int| 0 <= i < n implies #[trigger] front[i] == fs[i] by {}
        if validated_all(front, attributes) is Err {
            let e = validated_all(front, attributes)->Err_0;
            let k = choose|k: int|
                0 <= k < front.len() && is_first_wrong(#[trigger] front[k], e, attributes)
                    && forall|j: int| 0 <= j < k ==> is_sound(#[trigger] front[j], attributes);
            assert(is_first_wrong(fs[k], e, attributes));
            let i = choose|i: int| 0 <= i < front.len() && !is_sound(#[trigger] front[i], attributes);
            assert(!is_sound(fs[i], attributes));
        } else if validated(fs.last(), attributes) is Err {
            assert(is_first_wrong(fs[n], validated(fs.last(), attributes)->Err_0, attributes));
        }
    }
}

/// Whether a filter holds, given what terms hold: `Or` if one of its filters does,
/// `And` if all do, `AndNot` if its filter does not.
pub open spec fn is_met(f: FilterView, term: spec_fn(FilterView) -> bool) -> bool
    decreases f,
{
    match f {
        FilterView::Or(fs) => exists|i: int| 0 <= i < fs.len() && is_met(#[trigger] fs[i], term),
        FilterView::And(fs) => forall|i: int|
            0 <= i < fs.len() ==> is_met(#[trigger] fs[i], term),
        FilterView::AndNot(g) => !is_met(*g, term),
        _ => term(f),
    }
}

/// A term with the name of its attribute in lower case.
pub open spec fn lowered_term(f: FilterView) -> FilterView {
    match f {
        FilterView::Eq(a, v) => FilterView::Eq(lower(a), v),
        FilterView::Sub(a, v) => FilterView::Sub(lower(a), v),
        FilterView::Pres(a) => FilterView::Pres(lower(a)),
        _ => f,
    }
}

/// A valid filter asks the same as the filter that was given, with the names in
/// lower case: whatever terms hold, the one holds if and only if the other does.
pub proof fn law_valid_filter_asks_the_same<T: SchemaTransaction>(
    f: Filter,
    txn: T,
    g: Filter,
    term: spec_fn(FilterView) -> bool,
)
    requires
        call_ensures(Filter::validate::<T>, (&f, &txn), Ok::<Filter, SchemaError>(g)),
    ensures
        is_met(g.view(), term) <==> is_met(f.view(), |t: FilterView| term(lowered_term(t))),
{
    law_valid_filter(f, txn, Ok::<Filter, SchemaError>(g));
    lemma_same_question(f.view(), g.view(), term);
}

proof fn lemma_same_question(f: FilterView, g: FilterView, term: spec_fn(FilterView) -> bool)
    requires
        is_lowered(f, g),
    ensures
        is_met(g, term) <==> is_met(f, |t: FilterView| term(lowered_term(t))),
    decreases f,
{
    let lowered = |t: FilterView| term(lowered_term(t));
    match f {
        FilterView::Or(fs) => {
            let gs = g->Or_0;
            assert forall|i: int| 0 <= i < fs.len() implies (is_met(#[trigger] gs[i], term)
                <==> is_met(fs[i], lowered)) by {
                assert(is_lowered(fs[i], gs[i]));
                lemma_same_question(fs[i], gs[i], term);
            }
            if is_met(g, term) {
                let i = choose|i: int| 0 <= i < gs.len() && is_met(#[trigger] gs[i], term);
                assert(is_met(fs[i], lowered));
            }
            if is_met(f, lowered) {
                let i = choose|i: int| 0 <= i < fs.len() && is_met(#[trigger] fs[i], lowered);
                assert(is_met(gs[i], term));
            }
        },
        FilterView::And(fs) => {
            let gs = g->And_0;
            assert forall|i: int| 0 <= i < fs.len() implies (is_met(#[trigger] gs[i], term)
                <==> is_met(fs[i], lowered)) by {
                assert(is_lowered(fs[i], gs[i]));
                lemma_same_question(fs[i], gs[i], term);
            }
            if is_met(g, term) {
                assert forall|i: int| 0 <= i < fs.len() implies is_met(#[trigger] fs[i], lowered) by {
                    assert(is_met(gs[i], term));
                }
            }
        },
        FilterView::AndNot(h) => {
            lemma_same_question(*h, *g->AndNot_0, term);
        },
        _ => {},
    }
}

/// The contents of a filter are of its own form: of a term its name and its value, of
/// a connective the contents of each filter in its place, of a negation the contents of
/// what it negates.
pub proof fn law_filter_contents(f: Filter)
    ensures
        match f {
            Filter::Eq(a, v) => f.view() == FilterView::Eq(a@, v@),
            Filter::Sub(a, v) => f.view() == FilterView::Sub(a@, v@),
            Filter::Pres(a) => f.view() == FilterView::Pres(a@),
            Filter::Or(fs) => f.view() is Or && f.view()->Or_0.len() == fs@.len() && forall|i: int|
                0 <= i < fs@.len() ==> #[trigger] f.view()->Or_0[i] == fs@[i].view(),
            Filter::And(fs) => f.view() is And && f.view()->And_0.len() == fs@.len() && forall|
                i: int,
            |
                0 <= i < fs@.len() ==> #[trigger] f.view()->And_0[i] == fs@[i].view(),
            Filter::AndNot(g) => f.view() is AndNot && *f.view()->AndNot_0 == (*g).view(),
        },
{
    match f {
        Filter::Or(fs) => lemma_filter_views(fs@),
        Filter::And(fs) => lemma_filter_views(fs@),
        _ => {},
    }
}

/// A term is in order if and only if there is an attribute of exactly that name, and
/// the value, if there is one, is of its kind.
pub proof fn law_term(
    attr: String,
    value: Option<&PartialValue>,
    attributes: HashMap<String, SchemaAttribute>,
    r: Result<(), SchemaError>,
)
    requires
        call_ensures(check_term, (&attr, value, &attributes), r),
    ensures
        r is Ok <==> attributes_in(attributes).contains_key(attr@) && (value matches Some(p)
            ==> kind_of(p@) == attributes_in(attributes)[attr@].syntax),
        r matches Err(e) ==> e@ == (if attributes_in(attributes).contains_key(attr@) {
            SchemaErrorView::InvalidAttributeSyntax(attr@)
        } else {
            SchemaErrorView::InvalidAttribute(attr@)
        }),
{
    if value is Some {
        law_admits(attributes_in(attributes)[attr@].syntax, value->0@);
    }
}

} // verus!
