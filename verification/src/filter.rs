//! Filters: what is asked of entries.
use crate::attribute::SchemaAttribute;
use crate::error::SchemaError;
use crate::schema::SchemaTransaction;
use crate::tables::get_attribute;
use crate::value::PartialValue;
use hashbrown::HashMap;
use vstd::prelude::*;

verus! {

use crate::error::SchemaErrorView;
use crate::tables::{attributes_in, Attributes};
use crate::text::{is_ascii_text, lower};
use crate::value::PartialValueView;

/// What is asked of an entry.
#[derive(Debug, PartialEq, Eq)]
pub enum Filter {
    /// An attribute has a value.
    Eq(String, PartialValue),
    /// An attribute has a value of which this is a part.
    Sub(String, PartialValue),
    /// The entry has an attribute.
    Pres(String),
    /// One of the filters holds.
    Or(Vec<Filter>),
    /// All of the filters hold.
    And(Vec<Filter>),
    /// The filter does not hold.
    AndNot(Box<Filter>),
}

/// The contents of a [`Filter`].
pub enum FilterView {
    Eq(Seq<char>, PartialValueView),
    Sub(Seq<char>, PartialValueView),
    Pres(Seq<char>),
    Or(Seq<FilterView>),
    And(Seq<FilterView>),
    AndNot(Box<FilterView>),
}

impl Filter {
    /// The contents of a filter.
    pub open spec fn view(self) -> FilterView
        decreases self,
    {
        match self {
            Filter::Eq(a, v) => FilterView::Eq(a@, v@),
            Filter::Sub(a, v) => FilterView::Sub(a@, v@),
            Filter::Pres(a) => FilterView::Pres(a@),
            Filter::Or(fs) => FilterView::Or(filter_views(fs@)),
            Filter::And(fs) => FilterView::And(filter_views(fs@)),
            Filter::AndNot(f) => FilterView::AndNot(Box::new((*f).view())),
        }
    }
}

/// The contents of a list of filters.
pub open spec fn filter_views(fs: Seq<Filter>) -> Seq<FilterView>
    decreases fs,
{
    if fs.len() == 0 {
        Seq::empty()
    } else {
        filter_views(fs.drop_last()).push(fs.last().view())
    }
}

/// The attribute that a term of a filter speaks of, in the form in which the
/// schema has it, and whether a value fits it.
pub open spec fn term_fault(
    attr: Seq<char>,
    value: Option<PartialValueView>,
    attributes: Attributes,
) -> Option<SchemaErrorView> {
    if !attributes.contains_key(attr) {
        Some(SchemaErrorView::InvalidAttribute(attr))
    } else if value is Some && !attributes[attr].syntax.admits(value->0) {
        Some(SchemaErrorView::InvalidAttributeSyntax(attr))
    } else {
        None
    }
}

/// A filter with the names of attributes in the form in which the schema has
/// them, or the first thing that is wrong with it.
pub open spec fn validated(f: FilterView, attributes: Attributes) -> Result<
    FilterView,
    SchemaErrorView,
>
    decreases f,
{
    match f {
        FilterView::Eq(a, v) => match term_fault(lower(a), Some(v), attributes) {
            Some(e) => Err(e),
            None => Ok(FilterView::Eq(lower(a), v)),
        },
        FilterView::Sub(a, v) => match term_fault(lower(a), Some(v), attributes) {
            Some(e) => Err(e),
            None => Ok(FilterView::Sub(lower(a), v)),
        },
        FilterView::Pres(a) => match term_fault(lower(a), None, attributes) {
            Some(e) => Err(e),
            None => Ok(FilterView::Pres(lower(a))),
        },
        FilterView::Or(fs) => if fs.len() == 0 {
            Err(SchemaErrorView::EmptyFilter)
        } else {
            match validated_all(fs, attributes) {
                Ok(gs) => Ok(FilterView::Or(gs)),
                Err(e) => Err(e),
            }
        },
        FilterView::And(fs) => if fs.len() == 0 {
            Err(SchemaErrorView::EmptyFilter)
        } else {
            match validated_all(fs, attributes) {
                Ok(gs) => Ok(FilterView::And(gs)),
                Err(e) => Err(e),
            }
        },
        FilterView::AndNot(g) => match validated(*g, attributes) {
            Ok(h) => Ok(FilterView::AndNot(Box::new(h))),
            Err(e) => Err(e),
        },
    }
}

/// Each of some filters with the names as the schema has them, or the first
/// thing that is wrong with any.
pub open spec fn validated_all(fs: Seq<FilterView>, attributes: Attributes) -> Result<
    Seq<FilterView>,
    SchemaErrorView,
>
    decreases fs,
{
    if fs.len() == 0 {
        Ok(Seq::empty())
    } else {
        match validated_all(fs.drop_last(), attributes) {
            Ok(gs) => match validated(fs.last(), attributes) {
                Ok(g) => Ok(gs.push(g)),
                Err(e) => Err(e),
            },
            Err(e) => Err(e),
        }
    }
}

/// A list of filters has the contents of each, in order.
pub(crate) proof fn lemma_filter_views(fs: Seq<Filter>)
    ensures
        filter_views(fs).len() == fs.len(),
        forall|i: int| 0 <= i < fs.len() ==> #[trigger] filter_views(fs)[i] == fs[i].view(),
    decreases fs.len(),
{
    if fs.len() > 0 {
        let front = fs.drop_last();
        lemma_filter_views(front);
        assert forall|i: int| 0 <= i < fs.len() implies #[trigger] filter_views(fs)[i]
            == fs[i].view() by {
            if i < front.len() {
                assert(filter_views(front)[i] == front[i].view());
            }
        }
    }
}

/// What is wrong with the first of some filters is what is wrong with them all.
proof fn lemma_first_error_stays(
    fs: Seq<FilterView>,
    attributes: Attributes,
    n: int,
    e: SchemaErrorView,
)
    requires
        0 <= n <= fs.len(),
        validated_all(fs.take(n), attributes) == Err::<Seq<FilterView>, SchemaErrorView>(e),
    ensures
        validated_all(fs, attributes) == Err::<Seq<FilterView>, SchemaErrorView>(e),
    decreases fs.len(),
{
    if n == fs.len() {
        assert(fs.take(n) =~= fs);
    } else {
        let front = fs.drop_last();
        assert(front.take(n) =~= fs.take(n));
        lemma_first_error_stays(front, attributes, n, e);
    }
}

/// Whether a term of a filter speaks of an attribute that the schema has, by the
/// name that the schema has it under, and of a value that fits it.
pub fn check_term(
    attr: &String,
    value: Option<&PartialValue>,
    attributes: &HashMap<String, SchemaAttribute>,
) -> (r: Result<(), SchemaError>)
    ensures
        ({
            let v = match value {
                Some(p) => Some(p@),
                None => None,
            };
            match r {
                Ok(_) => term_fault(attr@, v, attributes_in(*attributes)) is None,
                Err(e) => term_fault(attr@, v, attributes_in(*attributes)) == Some(e@),
            }
        }),
{
    match get_attribute(attributes, attr.as_str()) {
        Some(a) => match value {
            Some(p) => a.validate_partialvalue(attr.as_str(), p),
            None => Ok(()),
        },
        None => Err(SchemaError::InvalidAttribute(attr.clone())),
    }
}

/// Checks each of some filters.
fn validate_all<T: SchemaTransaction>(fs: &Vec<Filter>, schema: &T) -> (r: Result<
    Vec<Filter>,
    SchemaError,
>)
    ensures
        match r {
            Ok(gs) => validated_all(filter_views(fs@), schema.schema().attributes) == Ok::<
                Seq<FilterView>,
                SchemaErrorView,
            >(filter_views(gs@)),
            Err(e) => validated_all(filter_views(fs@), schema.schema().attributes) == Err::<
                Seq<FilterView>,
                SchemaErrorView,
            >(e@),
        },
    decreases fs,
{
    let mut gs: Vec<Filter> = Vec::new();
    let ghost all = filter_views(fs@);
    let ghost attributes = schema.schema().attributes;
    proof {
        lemma_filter_views(fs@);
        assert(all.take(0) =~= Seq::empty());
    }
    let mut i: usize = 0;
    while i < fs.len()
        invariant
            i <= fs.len(),
            attributes == schema.schema().attributes,
            all == filter_views(fs@),
            all.len() == fs.len(),
            forall|j: int| 0 <= j < fs.len() ==> #[trigger] all[j] == fs@[j].view(),
            validated_all(all.take(i as int), attributes) == Ok::<Seq<FilterView>, SchemaErrorView>(
                filter_views(gs@),
            ),
        decreases fs.len() - i,
    {
        proof {
            assert(all.take(i + 1).drop_last() =~= all.take(i as int));
            assert(all.take(i + 1).last() == fs@[i as int].view());
            assert(decreases_to!(fs => fs@[i as int]));
        }
        match fs[i].validate(schema) {
            Ok(g) => {
                let ghost before = gs@;
                gs.push(g);
                assert(gs@.drop_last() =~= before);
            },
            Err(e) => {
                proof {
                    lemma_first_error_stays(all, attributes, i + 1, e@);
                }
                return Err(e);
            },
        }
        i = i + 1;
    }
    assert(all.take(i as int) =~= all);
    Ok(gs)
}

impl Filter {
    /// Checks that the filter speaks of attributes that a schema has, and of
    /// values that fit them, and gives it back with the names as the schema has
    /// them.
    pub fn validate<T: SchemaTransaction>(&self, schema: &T) -> (r: Result<Filter, SchemaError>)
        ensures
            match r {
                Ok(g) => validated(self.view(), schema.schema().attributes) == Ok::<
                    FilterView,
                    SchemaErrorView,
                >(g.view()),
                Err(e) => validated(self.view(), schema.schema().attributes) == Err::<
                    FilterView,
                    SchemaErrorView,
                >(e@),
            },
        decreases self,
    {
        match self {
            Filter::Eq(a, v) => {
                let attr = schema.normalise_attr_name(a.as_str());
                match check_term(&attr, Some(v), schema.get_attributes()) {
                    Ok(_) => Ok(Filter::Eq(attr, v.clone())),
                    Err(e) => Err(e),
                }
            },
            Filter::Sub(a, v) => {
                let attr = schema.normalise_attr_name(a.as_str());
                match check_term(&attr, Some(v), schema.get_attributes()) {
                    Ok(_) => Ok(Filter::Sub(attr, v.clone())),
                    Err(e) => Err(e),
                }
            },
            Filter::Pres(a) => {
                let attr = schema.normalise_attr_name(a.as_str());
                match check_term(&attr, None, schema.get_attributes()) {
                    Ok(_) => Ok(Filter::Pres(attr)),
                    Err(e) => Err(e),
                }
            },
            Filter::Or(fs) => {
                proof {
                    lemma_filter_views(fs@);
                }
                if fs.len() == 0 {
                    return Err(SchemaError::EmptyFilter);
                }
                match validate_all(fs, schema) {
                    Ok(gs) => Ok(Filter::Or(gs)),
                    Err(e) => Err(e),
                }
            },
            Filter::And(fs) => {
                proof {
                    lemma_filter_views(fs@);
                }
                if fs.len() == 0 {
                    return Err(SchemaError::EmptyFilter);
                }
                match validate_all(fs, schema) {
                    Ok(gs) => Ok(Filter::And(gs)),
                    Err(e) => Err(e),
                }
            },
            Filter::AndNot(f) => match f.validate(schema) {
                Ok(g) => Ok(Filter::AndNot(Box::new(g))),
                Err(e) => Err(e),
            },
        }
    }
}

/// Whether the names that a filter uses are ASCII text.
pub open spec fn has_ascii_names(f: FilterView) -> bool
    decreases f,
{
    match f {
        FilterView::Eq(a, _) => is_ascii_text(a),
        FilterView::Sub(a, _) => is_ascii_text(a),
        FilterView::Pres(a) => is_ascii_text(a),
        FilterView::Or(fs) => all_have_ascii_names(fs),
        FilterView::And(fs) => all_have_ascii_names(fs),
        FilterView::AndNot(g) => has_ascii_names(*g),
    }
}

/// Whether the names that some filters use are ASCII text.
pub open spec fn all_have_ascii_names(fs: Seq<FilterView>) -> bool
    decreases fs,
{
    fs.len() == 0 || (all_have_ascii_names(fs.drop_last()) && has_ascii_names(fs.last()))
}

/// A filter that was found to be valid is valid as it was given back, and stays
/// as it is.
pub proof fn law_validated_filter_is_valid(f: FilterView, g: FilterView, attributes: Attributes)
    requires
        has_ascii_names(f),
        validated(f, attributes) == Ok::<FilterView, SchemaErrorView>(g),
    ensures
        validated(g, attributes) == Ok::<FilterView, SchemaErrorView>(g),
    decreases f,
{
    match f {
        FilterView::Eq(a, _) => {
            crate::text::law_lower_again(a);
        },
        FilterView::Sub(a, _) => {
            crate::text::law_lower_again(a);
        },
        FilterView::Pres(a) => {
            crate::text::law_lower_again(a);
        },
        FilterView::Or(fs) => {
            let gs = validated_all(fs, attributes)->Ok_0;
            lemma_validated_filters_are_valid(fs, gs, attributes);
        },
        FilterView::And(fs) => {
            let gs = validated_all(fs, attributes)->Ok_0;
            lemma_validated_filters_are_valid(fs, gs, attributes);
        },
        FilterView::AndNot(h) => {
            let k = validated(*h, attributes)->Ok_0;
            law_validated_filter_is_valid(*h, k, attributes);
        },
    }
}

/// The same of a list of filters.
proof fn lemma_validated_filters_are_valid(
    fs: Seq<FilterView>,
    gs: Seq<FilterView>,
    attributes: Attributes,
)
    requires
        all_have_ascii_names(fs),
        validated_all(fs, attributes) == Ok::<Seq<FilterView>, SchemaErrorView>(gs),
    ensures
        gs.len() == fs.len(),
        validated_all(gs, attributes) == Ok::<Seq<FilterView>, SchemaErrorView>(gs),
    decreases fs,
{
    if fs.len() > 0 {
        let front = validated_all(fs.drop_last(), attributes)->Ok_0;
        let last = validated(fs.last(), attributes)->Ok_0;
        lemma_validated_filters_are_valid(fs.drop_last(), front, attributes);
        law_validated_filter_is_valid(fs.last(), last, attributes);
        assert(gs == front.push(last));
        assert(gs.drop_last() =~= front);
    }
}

} // verus!
