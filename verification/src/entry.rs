//! Entries: named sets of values.
use crate::order::text_before;
use crate::value::{IndexType, PartialValue, SyntaxType, Value, ValueSet};
use uuid::Uuid;
use vstd::prelude::*;

verus! {

use crate::order::{
    lemma_text_irreflexive, lemma_text_total, lemma_text_transitive, text_precedes,
};
use crate::value::{PartialValueView, ValueView};

/// The attributes of an entry and their values.
pub type AttrsView = Seq<(Seq<char>, Seq<ValueView>)>;

/// The values of an attribute, if the entry has it.
pub open spec fn ava(attrs: AttrsView, attr: Seq<char>) -> Option<Seq<ValueView>>
    decreases attrs.len(),
{
    if attrs.len() == 0 {
        None
    } else if attrs[0].0 == attr {
        Some(attrs[0].1)
    } else {
        ava(attrs.drop_first(), attr)
    }
}

/// The value of an attribute, if the entry has it with one value.
pub open spec fn single(attrs: AttrsView, attr: Seq<char>) -> Option<PartialValueView> {
    match ava(attrs, attr) {
        Some(vs) => if vs.len() == 1 {
            Some(vs[0].partial)
        } else {
            None
        },
        None => None,
    }
}

/// The text of an attribute, if the entry has it with one value and that is text.
pub open spec fn single_str(attrs: AttrsView, attr: Seq<char>) -> Option<Seq<char>> {
    match single(attrs, attr) {
        Some(p) => p.text(),
        None => None,
    }
}

/// The truth of an attribute, if the entry has it with one value and that is
/// true or false.
pub open spec fn single_bool(attrs: AttrsView, attr: Seq<char>) -> Option<bool> {
    match single(attrs, attr) {
        Some(PartialValueView::Bool(b)) => Some(b),
        _ => None,
    }
}

/// The kind of data that an attribute states, if the entry has it with one value
/// and that is such a kind.
pub open spec fn single_syntax(attrs: AttrsView, attr: Seq<char>) -> Option<SyntaxType> {
    match single(attrs, attr) {
        Some(PartialValueView::Syntax(s)) => Some(s),
        _ => None,
    }
}

/// The ways to index that an attribute states: none if the entry does not have
/// it, and an error if some value is no way to index.
pub open spec fn opt_index(attrs: AttrsView, attr: Seq<char>) -> Result<Seq<IndexType>, ()> {
    match ava(attrs, attr) {
        Some(vs) => if forall|i: int| 0 <= i < vs.len() ==> (#[trigger] vs[i]).partial is Index {
            Ok(vs.map_values(|v: ValueView| v.partial->Index_0))
        } else {
            Err(())
        },
        None => Ok(Seq::empty()),
    }
}

/// The texts among the values of an attribute, in order; none if the entry does
/// not have it.
pub open spec fn text_list(attrs: AttrsView, attr: Seq<char>) -> Seq<Seq<char>> {
    match ava(attrs, attr) {
        Some(vs) => vs.filter_map(|v: ValueView| v.partial.text()),
        None => Seq::empty(),
    }
}

/// Whether an attribute has a value.
pub open spec fn has_value(attrs: AttrsView, attr: Seq<char>, p: PartialValueView) -> bool {
    ava(attrs, attr) matches Some(vs) && crate::value::holds(vs, p)
}

/// Whether attributes stand in the ascending order of their names, so that none
/// occurs twice.
pub open spec fn names_in_order(attrs: AttrsView) -> bool {
    forall|i: int, j: int|
        0 <= i < j < attrs.len() ==> text_precedes(
            (#[trigger] attrs[i]).0,
            (#[trigger] attrs[j]).0,
        )
}

/// Attributes stand in order if each stands before the next.
pub(crate) proof fn lemma_names_in_order(attrs: AttrsView)
    requires
        forall|i: int|
            0 <= i < attrs.len() - 1 ==> text_precedes(
                (#[trigger] attrs[i]).0,
                attrs[i + 1].0,
            ),
    ensures
        names_in_order(attrs),
{
    assert forall|i: int, j: int| 0 <= i < j < attrs.len() implies text_precedes(
        (#[trigger] attrs[i]).0,
        (#[trigger] attrs[j]).0,
    ) by {
        lemma_later_name(attrs, i, j);
    }
}

/// An attribute stands before every later one, if each stands before the next.
proof fn lemma_later_name(attrs: AttrsView, i: int, j: int)
    requires
        forall|i: int|
            0 <= i < attrs.len() - 1 ==> text_precedes(
                (#[trigger] attrs[i]).0,
                attrs[i + 1].0,
            ),
        0 <= i < j < attrs.len(),
    ensures
        text_precedes(attrs[i].0, attrs[j].0),
    decreases j - i,
{
    assert(text_precedes(attrs[i].0, attrs[i + 1].0));
    if i + 1 < j {
        lemma_later_name(attrs, i + 1, j);
        lemma_text_transitive(attrs[i].0, attrs[i + 1].0, attrs[j].0);
    }
}

/// The first attribute of a name is the one that `ava` finds.
pub proof fn lemma_ava_first(attrs: AttrsView, attr: Seq<char>, i: int)
    requires
        0 <= i <= attrs.len(),
        forall|j: int| 0 <= j < i ==> (#[trigger] attrs[j]).0 != attr,
        i < attrs.len() ==> attrs[i].0 == attr,
    ensures
        ava(attrs, attr) == (if i < attrs.len() {
            Some(attrs[i].1)
        } else {
            None
        }),
    decreases attrs.len(),
{
    if i > 0 {
        assert(attrs[0].0 != attr);
        let rest = attrs.drop_first();
        assert forall|j: int| 0 <= j < i - 1 implies (#[trigger] rest[j]).0 != attr by {
            assert(rest[j] == attrs[j + 1]);
        }
        lemma_ava_first(rest, attr, i - 1);
    }
}

/// An entry after a value has been added to an attribute, which goes to its place
/// in the order if the entry does not have it yet.
pub open spec fn with_value(attrs: AttrsView, attr: Seq<char>, v: ValueView) -> AttrsView
    decreases attrs.len(),
{
    if attrs.len() == 0 {
        seq![(attr, seq![v])]
    } else if attrs[0].0 == attr {
        attrs.update(0, (attr, crate::value::inserted(attrs[0].1, v)))
    } else if text_precedes(attr, attrs[0].0) {
        seq![(attr, seq![v])] + attrs
    } else {
        seq![attrs[0]] + with_value(attrs.drop_first(), attr, v)
    }
}

/// A value is added at the first place that no lesser attribute has, to the
/// attribute that is there or in a new one.
pub(crate) proof fn lemma_with_value(attrs: AttrsView, attr: Seq<char>, v: ValueView, i: int)
    requires
        names_in_order(attrs),
        0 <= i <= attrs.len(),
        forall|j: int| 0 <= j < i ==> text_precedes((#[trigger] attrs[j]).0, attr),
        i < attrs.len() ==> !text_precedes(attrs[i].0, attr),
    ensures
        with_value(attrs, attr, v) == (if i < attrs.len() && attrs[i].0 == attr {
            attrs.update(i, (attr, crate::value::inserted(attrs[i].1, v)))
        } else {
            attrs.insert(i, (attr, seq![v]))
        }),
        names_in_order(with_value(attrs, attr, v)),
    decreases attrs.len(),
{
    let there = i < attrs.len() && attrs[i].0 == attr;
    let all = if there {
        attrs.update(i, (attr, crate::value::inserted(attrs[i].1, v)))
    } else {
        attrs.insert(i, (attr, seq![v]))
    };
    lemma_text_irreflexive(attr);
    if i > 0 {
        assert(text_precedes(attrs[0].0, attr));
        if text_precedes(attr, attrs[0].0) {
            lemma_text_transitive(attr, attrs[0].0, attr);
        }
        let rest = attrs.drop_first();
        assert forall|j: int| 0 <= j < i - 1 implies text_precedes(
            (#[trigger] rest[j]).0,
            attr,
        ) by {
            assert(rest[j] == attrs[j + 1]);
        }
        lemma_with_value(rest, attr, v, i - 1);
    } else if attrs.len() > 0 {
        lemma_text_total(attrs[0].0, attr);
    }
    assert(with_value(attrs, attr, v) =~= all);
    assert forall|j: int| i <= j < attrs.len() && !there implies text_precedes(
        attr,
        (#[trigger] attrs[j]).0,
    ) by {
        lemma_text_total(attrs[i].0, attr);
        if j > i {
            lemma_text_transitive(attr, attrs[i].0, attrs[j].0);
        }
    }
    assert forall|a: int, b: int| 0 <= a < b < all.len() implies text_precedes(
        (#[trigger] all[a]).0,
        (#[trigger] all[b]).0,
    ) by {
        if there {
            assert(text_precedes(attrs[a].0, attrs[b].0));
        } else if a < i && b > i {
            assert(text_precedes(attrs[a].0, attrs[b - 1].0));
        } else if a == i {
            assert(text_precedes(attr, attrs[b - 1].0));
        } else if a > i {
            assert(text_precedes(attrs[a - 1].0, attrs[b - 1].0));
        }
    }
}

/// There is a first place that no lesser attribute has.
pub(crate) proof fn lemma_place_of_name(attrs: AttrsView, attr: Seq<char>) -> (k: int)
    ensures
        0 <= k <= attrs.len(),
        forall|j: int| 0 <= j < k ==> text_precedes((#[trigger] attrs[j]).0, attr),
        k < attrs.len() ==> !text_precedes(attrs[k].0, attr),
    decreases attrs.len(),
{
    if attrs.len() == 0 || !text_precedes(attrs[0].0, attr) {
        0
    } else {
        let rest = attrs.drop_first();
        let k = lemma_place_of_name(rest, attr);
        assert forall|j: int| 0 <= j < k + 1 implies text_precedes(
            (#[trigger] attrs[j]).0,
            attr,
        ) by {
            if j > 0 {
                assert(rest[j - 1] == attrs[j]);
            }
        }
        k + 1
    }
}

/// The contents of an entry.
pub open spec fn attrs_views(attrs: Seq<(String, ValueSet)>) -> AttrsView {
    attrs.map_values(|a: (String, ValueSet)| (a.0@, a.1@))
}

/// An entry: attributes, in the ascending order of their names, each with a set of
/// values.
#[derive(Debug)]
pub struct Entry {
    attrs: Vec<(String, ValueSet)>,
}

impl View for Entry {
    type V = AttrsView;

    closed spec fn view(&self) -> AttrsView {
        attrs_views(self.attrs@)
    }
}

impl Entry {
    #[verifier::type_invariant]
    spec fn inv(&self) -> bool {
        names_in_order(attrs_views(self.attrs@))
    }

    /// An entry without attributes.
    pub fn new() -> (r: Self)
        ensures
            r@ == Seq::<(Seq<char>, Seq<ValueView>)>::empty(),
    {
        let r = Entry { attrs: Vec::new() };
        assert(r@ =~= Seq::<(Seq<char>, Seq<ValueView>)>::empty());
        r
    }

    /// The number of attributes.
    pub fn len(&self) -> (r: usize)
        ensures
            r == self@.len(),
            names_in_order(self@),
    {
        proof {
            use_type_invariant(self);
        }
        self.attrs.len()
    }

    /// The name of the attribute at a place in the order.
    pub fn name_at(&self, i: usize) -> (r: &String)
        requires
            i < self@.len(),
        ensures
            r@ == self@[i as int].0,
    {
        &self.attrs[i].0
    }

    /// The values of the attribute at a place in the order.
    pub fn values_at(&self, i: usize) -> (r: &ValueSet)
        requires
            i < self@.len(),
        ensures
            r@ == self@[i as int].1,
    {
        &self.attrs[i].1
    }

    /// The values of an attribute, if the entry has it.
    pub fn get_ava_set(&self, attr: &str) -> (r: Option<&ValueSet>)
        ensures
            match r {
                Some(vs) => ava(self@, attr@) == Some(vs@),
                None => ava(self@, attr@) is None,
            },
    {
        let name = attr.to_owned();
        let mut i: usize = 0;
        while i < self.attrs.len()
            invariant
                i <= self.attrs.len(),
                name@ == attr@,
                forall|j: int| 0 <= j < i ==> (#[trigger] self@[j]).0 != attr@,
            decreases self.attrs.len() - i,
        {
            if self.attrs[i].0 == name {
                proof {
                    lemma_ava_first(self@, attr@, i as int);
                }
                return Some(&self.attrs[i].1);
            }
            i = i + 1;
        }
        proof {
            lemma_ava_first(self@, attr@, i as int);
        }
        None
    }

    /// The value of an attribute, if the entry has it with one value.
    pub fn get_ava_single(&self, attr: &str) -> (r: Option<&PartialValue>)
        ensures
            match r {
                Some(p) => single(self@, attr@) == Some(p@),
                None => single(self@, attr@) is None,
            },
    {
        match self.get_ava_set(attr) {
            Some(vs) => if vs.len() == 1 {
                Some(&vs.get(0).partial)
            } else {
                None
            },
            None => None,
        }
    }

    /// The text of an attribute, if the entry has it with one value and that is
    /// text.
    pub fn get_ava_single_str(&self, attr: &str) -> (r: Option<&String>)
        ensures
            match r {
                Some(s) => single_str(self@, attr@) == Some(s@),
                None => single_str(self@, attr@) is None,
            },
    {
        match self.get_ava_single(attr) {
            Some(p) => p.to_str(),
            None => None,
        }
    }

    /// The truth of an attribute, if the entry has it with one value and that is
    /// true or false.
    pub fn get_ava_single_bool(&self, attr: &str) -> (r: Option<bool>)
        ensures
            r == single_bool(self@, attr@),
    {
        match self.get_ava_single(attr) {
            Some(PartialValue::Bool(b)) => Some(*b),
            _ => None,
        }
    }

    /// The kind of data that an attribute states, if the entry has it with one
    /// value and that is such a kind.
    pub fn get_ava_single_syntax(&self, attr: &str) -> (r: Option<SyntaxType>)
        ensures
            r == single_syntax(self@, attr@),
    {
        match self.get_ava_single(attr) {
            Some(PartialValue::Syntax(s)) => Some(*s),
            _ => None,
        }
    }

    /// The ways to index that an attribute states: none if the entry does not
    /// have it, and an error if some value is no way to index.
    pub fn get_ava_opt_index(&self, attr: &str) -> (r: Result<Vec<IndexType>, ()>)
        ensures
            match r {
                Ok(v) => opt_index(self@, attr@) == Ok::<Seq<IndexType>, ()>(v@),
                Err(_) => opt_index(self@, attr@) is Err,
            },
    {
        let mut found: Vec<IndexType> = Vec::new();
        if let Some(vs) = self.get_ava_set(attr) {
            let mut i: usize = 0;
            while i < vs.len()
                invariant
                    i <= vs@.len(),
                    ava(self@, attr@) == Some(vs@),
                    found.len() == i,
                    forall|j: int|
                        0 <= j < i ==> (#[trigger] vs@[j]).partial is Index
                            && vs@[j].partial->Index_0 == found@[j],
                decreases vs@.len() - i,
            {
                match &vs.get(i).partial {
                    PartialValue::Index(t) => {
                        found.push(*t);
                    },
                    _ => {
                        assert(!(vs@[i as int].partial is Index));
                        return Err(());
                    },
                }
                i = i + 1;
            }
            assert(vs@.map_values(|v: ValueView| v.partial->Index_0) =~= found@);
        }
        Ok(found)
    }

    /// The texts among the values of an attribute, in order; none if the entry
    /// does not have it.
    pub fn get_ava_as_str(&self, attr: &str) -> (r: Vec<String>)
        ensures
            crate::text::texts(r@) == text_list(self@, attr@),
    {
        let mut found: Vec<String> = Vec::new();
        let ghost text = |v: ValueView| v.partial.text();
        if let Some(vs) = self.get_ava_set(attr) {
            let mut i: usize = 0;
            assert(crate::text::texts(found@) =~= vs@.take(0).filter_map(text));
            while i < vs.len()
                invariant
                    i <= vs@.len(),
                    text == (|v: ValueView| v.partial.text()),
                    ava(self@, attr@) == Some(vs@),
                    crate::text::texts(found@) == vs@.take(i as int).filter_map(text),
                decreases vs@.len() - i,
            {
                proof {
                    vs@.lemma_filter_map_take_succ(text, i as int);
                }
                let ghost before = found@;
                if let Some(s) = vs.get(i).to_str() {
                    found.push(s.clone());
                    assert(crate::text::texts(found@) =~= crate::text::texts(before).push(s@));
                    assert(crate::text::texts(before) + seq![s@] =~= crate::text::texts(
                        before,
                    ).push(s@));
                } else {
                    assert(crate::text::texts(before) + Seq::<Seq<char>>::empty()
                        =~= crate::text::texts(before));
                }
                i = i + 1;
            }
            assert(vs@.take(i as int) =~= vs@);
        } else {
            assert(crate::text::texts(found@) =~= Seq::<Seq<char>>::empty());
        }
        found
    }

    /// Whether an attribute has a value.
    pub fn attribute_value_pres(&self, attr: &str, p: &PartialValue) -> (r: bool)
        ensures
            r == has_value(self@, attr@, p@),
    {
        match self.get_ava_set(attr) {
            Some(vs) => vs.contains(p),
            None => false,
        }
    }

    /// Adds a value to an attribute.
    pub fn add_ava(&mut self, attr: &str, value: Value)
        ensures
            final(self)@ == with_value(old(self)@, attr@, value@),
    {
        proof {
            use_type_invariant(&*self);
        }
        let name = attr.to_owned();
        let mut attrs: Vec<(String, ValueSet)> = Vec::new();
        std::mem::swap(&mut attrs, &mut self.attrs);
        let ghost before = attrs_views(attrs@);
        let mut i: usize = 0;
        while i < attrs.len() && text_before(attrs[i].0.as_str(), attr)
            invariant
                i <= attrs.len(),
                before == attrs_views(attrs@),
                forall|j: int| 0 <= j < i ==> text_precedes((#[trigger] before[j]).0, attr@),
            decreases attrs.len() - i,
        {
            assert(before[i as int].0 == attrs@[i as int].0@);
            i = i + 1;
        }
        proof {
            if i < attrs.len() {
                assert(before[i as int].0 == attrs@[i as int].0@);
            }
            lemma_with_value(before, attr@, value@, i as int);
        }
        if i < attrs.len() && attrs[i].0 == name {
            attrs[i].1.insert(value);
            assert(attrs_views(attrs@) =~= with_value(before, attr@, value@));
        } else {
            let mut values = ValueSet::new();
            values.insert(value);
            assert(values@ =~= seq![value@]);
            attrs.insert(i, (name, values));
            assert(attrs_views(attrs@) =~= with_value(before, attr@, value@));
        }
        self.attrs = attrs;
    }

    /// An entry of the given attributes.
    pub(crate) fn from_attrs(attrs: Vec<(String, ValueSet)>) -> (r: Self)
        requires
            names_in_order(attrs_views(attrs@)),
        ensures
            r@ == attrs_views(attrs@),
    {
        Entry { attrs }
    }
}

/// An entry that was committed, so that its identifier is known.
#[derive(Debug)]
pub struct SealedEntry {
    pub uuid: Uuid,
    pub entry: Entry,
}

/// The contents of a [`SealedEntry`].
pub struct SealedEntryView {
    pub uuid: Uuid,
    pub attrs: AttrsView,
}

impl View for SealedEntry {
    type V = SealedEntryView;

    open spec fn view(&self) -> SealedEntryView {
        SealedEntryView { uuid: self.uuid, attrs: self.entry@ }
    }
}

impl SealedEntry {
    /// The identifier of the entry.
    pub fn get_uuid(&self) -> (r: Uuid)
        ensures
            r == self@.uuid,
    {
        self.uuid
    }
}

} // verus!
