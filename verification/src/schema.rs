//! The schema and the transactions on it.
use crate::attribute::SchemaAttribute;
use crate::bootstrap::{add_core_attributes, add_core_classes, SchemaUuids};
use crate::class::SchemaClass;
use crate::consistency::check_classes;
use crate::definition::entries_of;
use crate::entry::Entry;
use crate::error::{ConsistencyError, OperationError, SchemaError};
use crate::state::{new_cell, read_cell, show, store, SchemaState};
use crate::tables::{
    attribute_values, class_values, clear_attributes, clear_classes, get_attribute, has_attribute,
    insert_attribute, insert_class, insert_index, no_attributes, no_classes, no_indexes, IdxKey,
};
use crate::text::to_lowercase;
use crate::value::{IndexType, SyntaxType};
use concread::cowcell::{CowCell, CowCellReadTxn};
use hashbrown::{HashMap, HashSet};
use vstd::prelude::*;

verus! {

use crate::attribute::SchemaAttributeView;
use crate::bootstrap::{core_attributes, core_classes};
use crate::class::SchemaClassView;
use crate::consistency::{consistent, full_report};
use crate::definition::{definitions, entry_views};
use crate::error::{report, SchemaErrorView};
use crate::text::texts;
use crate::state::SchemaView;
use crate::tables::{
    attribute_views, attributes_in, class_views, classes_in, enumerates, indexes_in, lists_values,
    Attributes, Classes, Indexes,
};

/// What can be asked of a schema in a transaction.
pub trait SchemaTransaction {
    /// The schema that the transaction sees.
    spec fn schema(&self) -> SchemaView;

    /// The classes by name.
    fn get_classes(&self) -> (r: &HashMap<String, SchemaClass>)
        ensures
            classes_in(*r) == self.schema().classes,
    ;

    /// The attributes by name.
    fn get_attributes(&self) -> (r: &HashMap<String, SchemaAttribute>)
        ensures
            attributes_in(*r) == self.schema().attributes,
    ;

    /// The names of the attributes whose values are unique.
    fn get_attributes_unique(&self) -> (r: &Vec<String>)
        ensures
            texts(r@) == self.schema().unique_cache,
    ;

    /// The attributes that refer to other entries, by name.
    fn get_reference_types(&self) -> (r: &HashMap<String, SchemaAttribute>)
        ensures
            attributes_in(*r) == self.schema().ref_cache,
    ;

    /// Reports what is wrong with the classes, taken in some order: each
    /// attribute that a class names and that is missing or a phantom.
    fn validate(&self) -> (r: Vec<Result<(), ConsistencyError>>)
        ensures
            exists|order: Seq<SchemaClassView>| #[trigger]
                lists_values(order, self.schema().classes) && report(r@) == full_report(
                    order,
                    self.schema().attributes,
                ),
            r@.len() == 0 <==> consistent(self.schema().classes, self.schema().attributes),
    {
        let classes = class_values(self.get_classes());
        let attributes = self.get_attributes();
        let r = check_classes(&classes, attributes);
        proof {
            crate::consistency::law_empty_report(
                class_views(classes@),
                self.schema().classes,
                self.schema().attributes,
            );
            assert(report(r@).len() == r@.len());
        }
        r
    }

    /// Whether an attribute may hold more than one value.
    fn is_multivalue(&self, attr: &str) -> (r: Result<bool, SchemaError>)
        ensures
            match r {
                Ok(b) => {
                    &&& self.schema().attributes.contains_key(attr@)
                    &&& b == self.schema().attributes[attr@].multivalue
                },
                Err(e) => {
                    &&& !self.schema().attributes.contains_key(attr@)
                    &&& e@ == SchemaErrorView::InvalidAttribute(attr@)
                },
            },
    {
        match get_attribute(self.get_attributes(), attr) {
            Some(a) => Ok(a.multivalue),
            None => Err(SchemaError::InvalidAttribute(attr.to_owned())),
        }
    }

    /// The form of the name of an attribute in which the schema has it.
    fn normalise_attr_name(&self, an: &str) -> (r: String)
        ensures
            r@ == crate::text::lower(an@),
    {
        to_lowercase(an)
    }

    /// That form, for a name that the schema has.
    fn normalise_attr_if_exists(&self, an: &str) -> (r: Option<String>)
        ensures
            match r {
                Some(s) => {
                    &&& self.schema().attributes.contains_key(an@)
                    &&& s@ == crate::text::lower(an@)
                },
                None => !self.schema().attributes.contains_key(an@),
            },
    {
        if has_attribute(self.get_attributes(), an) {
            Some(self.normalise_attr_name(an))
        } else {
            None
        }
    }
}

/// The classes and attributes that a server validates entries, filters and
/// modifications by.
///
/// Any number of transactions can read it at a time, each the content of the
/// time at which it began. One can write at a time: it borrows the schema for as
/// long as it lasts, and reads of what is committed begin through it meanwhile.
pub struct Schema {
    cell: CowCell<SchemaState>,
}

impl View for Schema {
    type V = SchemaView;

    closed spec fn view(&self) -> SchemaView {
        crate::state::held(self.cell)@
    }
}

/// A transaction that reads a schema, as it was when the transaction began.
pub struct SchemaReadTransaction {
    txn: CowCellReadTxn<SchemaState>,
}

impl SchemaTransaction for SchemaReadTransaction {
    closed spec fn schema(&self) -> SchemaView {
        crate::state::shown(self.txn)@
    }

    fn get_classes(&self) -> (r: &HashMap<String, SchemaClass>) {
        &show(&self.txn).classes
    }

    fn get_attributes(&self) -> (r: &HashMap<String, SchemaAttribute>) {
        &show(&self.txn).attributes
    }

    fn get_attributes_unique(&self) -> (r: &Vec<String>) {
        &show(&self.txn).unique_cache
    }

    fn get_reference_types(&self) -> (r: &HashMap<String, SchemaAttribute>) {
        &show(&self.txn).ref_cache
    }
}

/// A transaction that changes a schema. What it changes is seen in it alone,
/// until it is committed. If it is dropped instead, the schema stays as it was.
pub struct SchemaWriteTransaction<'a> {
    schema: &'a mut Schema,
    state: SchemaState,
}

impl<'a> SchemaTransaction for SchemaWriteTransaction<'a> {
    closed spec fn schema(&self) -> SchemaView {
        self.state@
    }

    fn get_classes(&self) -> (r: &HashMap<String, SchemaClass>) {
        &self.state.classes
    }

    fn get_attributes(&self) -> (r: &HashMap<String, SchemaAttribute>) {
        &self.state.attributes
    }

    fn get_attributes_unique(&self) -> (r: &Vec<String>) {
        &self.state.unique_cache
    }

    fn get_reference_types(&self) -> (r: &HashMap<String, SchemaAttribute>) {
        &self.state.ref_cache
    }
}

/// Attributes under their names. Of two of one name the later stays.
pub open spec fn attributes_by_name(list: Seq<SchemaAttributeView>) -> Attributes
    decreases list.len(),
{
    if list.len() == 0 {
        Attributes::empty()
    } else {
        attributes_by_name(list.drop_last()).insert(list.last().name, list.last())
    }
}

/// Classes under their names. Of two of one name the later stays.
pub open spec fn classes_by_name(list: Seq<SchemaClassView>) -> Classes
    decreases list.len(),
{
    if list.len() == 0 {
        Classes::empty()
    } else {
        classes_by_name(list.drop_last()).insert(list.last().name, list.last())
    }
}

/// Those attributes of a list that refer to other entries.
pub open spec fn references(list: Seq<SchemaAttributeView>) -> Seq<SchemaAttributeView> {
    list.filter(|a: SchemaAttributeView| a.syntax == SyntaxType::REFERENCE_UUID)
}

/// The names of those attributes of a list whose values are unique.
pub open spec fn unique_names(list: Seq<SchemaAttributeView>) -> Seq<Seq<char>> {
    list.filter(|a: SchemaAttributeView| a.unique).map_values(|a: SchemaAttributeView| a.name)
}

/// The contents of a list of attributes.
pub open spec fn attribute_list(list: Seq<SchemaAttribute>) -> Seq<SchemaAttributeView> {
    list.map_values(|a: SchemaAttribute| a@)
}

/// The contents of a list of classes.
pub open spec fn class_list(list: Seq<SchemaClass>) -> Seq<SchemaClassView> {
    list.map_values(|c: SchemaClass| c@)
}

impl<'a> SchemaWriteTransaction<'a> {
    /// The schema that the transaction changes when it is committed.
    pub closed spec fn target(self) -> &'a mut Schema {
        self.schema
    }

    /// Begins a transaction that reads the schema as it is outside this one:
    /// without the changes that this one has made.
    pub fn read_committed(&self) -> (r: SchemaReadTransaction)
        ensures
            r.schema() == (*self.target())@,
    {
        self.schema.read()
    }

    /// Makes the changes of the transaction those of the schema.
    pub fn commit(self) -> (r: Result<(), OperationError>)
        ensures
            r is Ok,
            final(self.target())@ == self.schema(),
    {
        store(&mut self.schema.cell, self.state);
        Ok(())
    }

    /// Replaces all attributes. Of two of one name the later stays.
    pub fn update_attributes(&mut self, attributetypes: Vec<SchemaAttribute>) -> (r: Result<
        (),
        OperationError,
    >)
        ensures
            r is Ok,
            final(self).schema() == (SchemaView {
                classes: old(self).schema().classes,
                attributes: attributes_by_name(attribute_list(attributetypes@)),
                unique_cache: unique_names(attribute_list(attributetypes@)),
                ref_cache: attributes_by_name(references(attribute_list(attributetypes@))),
            }),
            old(self).schema().wf() ==> final(self).schema().wf(),
            final(self).target() == old(self).target(),
    {
        clear_attributes(&mut self.state.attributes);
        self.state.unique_cache.clear();
        clear_attributes(&mut self.state.ref_cache);
        let ghost all = attribute_list(attributetypes@);
        let ghost refers = |a: SchemaAttributeView| a.syntax == SyntaxType::REFERENCE_UUID;
        let ghost unique = |a: SchemaAttributeView| a.unique;
        proof {
            reveal(Seq::filter);
            assert(texts(self.state.unique_cache@) =~= unique_names(all.take(0)));
        }
        let mut i: usize = 0;
        while i < attributetypes.len()
            invariant
                i <= attributetypes.len(),
                all == attribute_list(attributetypes@),
                refers == (|a: SchemaAttributeView| a.syntax == SyntaxType::REFERENCE_UUID),
                unique == (|a: SchemaAttributeView| a.unique),
                attributes_in(self.state.attributes) == attributes_by_name(all.take(i as int)),
                texts(self.state.unique_cache@) == unique_names(all.take(i as int)),
                attributes_in(self.state.ref_cache) == attributes_by_name(
                    references(all.take(i as int)),
                ),
                classes_in(self.state.classes) == old(self).schema().classes,
                self.target() == old(self).target(),
            decreases attributetypes.len() - i,
        {
            let a = &attributetypes[i];
            let ghost names = texts(self.state.unique_cache@);
            proof {
                let front = all.take(i as int);
                assert(all[i as int] == a@);
                assert(all.take(i + 1) =~= front.push(a@));
                assert(front.push(a@).drop_last() =~= front);
                front.lemma_filter_push(a@, refers);
                front.lemma_filter_push(a@, unique);
                assert(references(front).push(a@).drop_last() =~= references(front));
                assert(front.filter(unique).push(a@).map_values(
                    |a: SchemaAttributeView| a.name,
                ) =~= unique_names(front).push(a@.name));
            }
            if a.syntax == SyntaxType::REFERENCE_UUID {
                insert_attribute(&mut self.state.ref_cache, a.name.clone(), a.clone());
            }
            if a.unique {
                self.state.unique_cache.push(a.name.clone());
                assert(texts(self.state.unique_cache@) =~= names.push(a@.name));
            }
            insert_attribute(&mut self.state.attributes, a.name.clone(), a.clone());
            i = i + 1;
        }
        assert(all.take(i as int) =~= all);
        proof {
            crate::laws::law_updates_are_well_formed(all, Seq::empty());
        }
        Ok(())
    }

    /// Replaces all classes. Of two of one name the later stays.
    pub fn update_classes(&mut self, classtypes: Vec<SchemaClass>) -> (r: Result<
        (),
        OperationError,
    >)
        ensures
            r is Ok,
            final(self).schema() == (SchemaView {
                classes: classes_by_name(class_list(classtypes@)),
                ..old(self).schema()
            }),
            old(self).schema().wf() ==> final(self).schema().wf(),
            final(self).target() == old(self).target(),
    {
        clear_classes(&mut self.state.classes);
        let ghost all = class_list(classtypes@);
        let mut i: usize = 0;
        while i < classtypes.len()
            invariant
                i <= classtypes.len(),
                all == class_list(classtypes@),
                classes_in(self.state.classes) == classes_by_name(all.take(i as int)),
                self.state.attributes == old(self).state.attributes,
                self.state.unique_cache == old(self).state.unique_cache,
                self.state.ref_cache == old(self).state.ref_cache,
                self.target() == old(self).target(),
            decreases classtypes.len() - i,
        {
            let c = &classtypes[i];
            proof {
                let front = all.take(i as int);
                assert(all[i as int] == c@);
                assert(all.take(i + 1) =~= front.push(c@));
                assert(front.push(c@).drop_last() =~= front);
            }
            insert_class(&mut self.state.classes, c.name.clone(), c.clone());
            i = i + 1;
        }
        assert(all.take(i as int) =~= all);
        proof {
            let after = self.schema();
            assert forall|n: Seq<char>| #[trigger]
                after.classes.contains_key(n) implies after.classes[n].name == n by {
                crate::laws::law_only_listed_classes_stand(all, n);
            }
            assert(after.attributes == old(self).schema().attributes);
            assert(after.ref_cache == old(self).schema().ref_cache);
        }
        Ok(())
    }

    /// The entries that define the attributes, and after them those that define
    /// the classes, each kind in some order.
    pub fn to_entries(&self) -> (r: Vec<Entry>)
        ensures
            exists|a: Seq<SchemaAttributeView>, c: Seq<SchemaClassView>| #[trigger]
                lists_values(a, self.schema().attributes) && #[trigger] lists_values(
                    c,
                    self.schema().classes,
                ) && entry_views(r@) == definitions(a, c),
    {
        let attributes = attribute_values(&self.state.attributes);
        let classes = class_values(&self.state.classes);
        let r = entries_of(&attributes, &classes);
        assert(lists_values(attribute_views(attributes@), self.schema().attributes));
        assert(lists_values(class_views(classes@), self.schema().classes));
        r
    }

    /// The indexes that the attributes ask for.
    pub fn reload_idxmeta(&self) -> (r: HashSet<IdxKey>)
        ensures
            indexes_in(r) == indexes_of(self.schema().attributes),
    {
        let attributes = attribute_values(&self.state.attributes);
        let r = collect_indexes(&attributes);
        proof {
            let all = self.schema().attributes;
            let list = attribute_views(attributes@);
            let keys = choose|keys: Seq<Seq<char>>| #[trigger]
                enumerates(keys, all) && list == keys.map_values(|k: Seq<char>| all[k]);
            assert forall|k: (Seq<char>, IndexType)| #[trigger]
                indexes_in(r).contains(k) == indexes_of(all).contains(k) by {
                if indexes_in(r).contains(k) {
                    let i = choose|i: int|
                        0 <= i < list.len() && (#[trigger] list[i]).name == k.0
                            && list[i].index.contains(k.1);
                    assert(keys.contains(keys[i]));
                    assert(all.contains_key(keys[i]) && all[keys[i]] == list[i]);
                }
                if indexes_of(all).contains(k) {
                    let n = choose|n: Seq<char>| #[trigger]
                        all.contains_key(n) && all[n].name == k.0 && all[n].index.contains(k.1);
                    assert(keys.contains(n));
                    let i = choose|i: int| 0 <= i < keys.len() && keys[i] == n;
                    assert(list[i] == all[n]);
                }
            }
            assert(indexes_in(r) =~= indexes_of(all));
        }
        r
    }

    /// Puts in place of all classes and attributes those that a schema starts
    /// with, and makes sure that they are consistent.
    pub fn generate_in_memory(&mut self, ids: &SchemaUuids) -> (r: Result<(), OperationError>)
        ensures
            r is Ok,
            final(self).schema() == (SchemaView {
                classes: core_classes(*ids),
                attributes: core_attributes(*ids),
                ..old(self).schema()
            }),
            old(self).schema().wf() ==> final(self).schema().wf(),
            final(self).target() == old(self).target(),
    {
        clear_classes(&mut self.state.classes);
        clear_attributes(&mut self.state.attributes);
        add_core_attributes(&mut self.state.attributes, ids);
        add_core_classes(&mut self.state.classes, ids);
        proof {
            crate::bootstrap::law_core_is_consistent(*ids);
            crate::bootstrap::law_core_is_well_formed(*ids);
        }
        let r = self.validate();
        if r.is_empty() {
            Ok(())
        } else {
            Err(OperationError::ConsistencyError(r))
        }
    }
}

/// The indexes that some attributes ask for.
pub open spec fn indexes_of(attributes: Attributes) -> Indexes {
    Indexes::new(
        |k: (Seq<char>, IndexType)|
            exists|n: Seq<char>| #[trigger]
                attributes.contains_key(n) && attributes[n].name == k.0
                    && attributes[n].index.contains(k.1),
    )
}

/// Gathers the indexes that some attributes ask for.
fn collect_indexes(attributes: &Vec<&SchemaAttribute>) -> (r: HashSet<IdxKey>)
    ensures
        forall|k: (Seq<char>, IndexType)| #[trigger]
            indexes_in(r).contains(k) <==> exists|i: int|
                0 <= i < attributes.len() && (#[trigger] attribute_views(attributes@)[i]).name
                    == k.0 && attribute_views(attributes@)[i].index.contains(k.1),
{
    let mut r = no_indexes();
    let ghost list = attribute_views(attributes@);
    let mut i: usize = 0;
    while i < attributes.len()
        invariant
            i <= attributes.len(),
            list == attribute_views(attributes@),
            forall|k: (Seq<char>, IndexType)| #[trigger]
                indexes_in(r).contains(k) <==> exists|j: int|
                    0 <= j < i && (#[trigger] list[j]).name == k.0 && list[j].index.contains(k.1),
        decreases attributes.len() - i,
    {
        let a = attributes[i];
        let ghost before = indexes_in(r);
        let mut t: usize = 0;
        while t < a.index.len()
            invariant
                t <= a.index.len(),
                forall|k: (Seq<char>, IndexType)| #[trigger]
                    indexes_in(r).contains(k) <==> before.contains(k) || (k.0 == a.name@
                        && exists|j: int| 0 <= j < t && #[trigger] a.index@[j] == k.1),
            decreases a.index.len() - t,
        {
            let ghost sofar = indexes_in(r);
            insert_index(&mut r, IdxKey { attr: a.name.clone(), itype: a.index[t] });
            let ghost key = (a.name@, a.index@[t as int]);
            assert forall|k: (Seq<char>, IndexType)| #[trigger]
                indexes_in(r).contains(k) <==> before.contains(k) || (k.0 == a.name@ && exists|
                j: int,
            |
                0 <= j < t + 1 && #[trigger] a.index@[j] == k.1) by {
                assert(indexes_in(r).contains(k) <==> sofar.contains(k) || k == key);
                if k == key {
                    assert(a.index@[t as int] == k.1);
                }
            }
            t = t + 1;
        }
        assert(list[i as int] == a@);
        assert forall|k: (Seq<char>, IndexType)| #[trigger]
            indexes_in(r).contains(k) <==> exists|j: int|
                0 <= j < i + 1 && (#[trigger] list[j]).name == k.0 && list[j].index.contains(
                    k.1,
                ) by {
            if indexes_in(r).contains(k) && !before.contains(k) {
                assert(list[i as int].name == k.0 && list[i as int].index.contains(k.1));
            }
            if before.contains(k) {
                let j = choose|j: int|
                    0 <= j < i && (#[trigger] list[j]).name == k.0 && list[j].index.contains(k.1);
                assert(j < i + 1);
            }
        }
        i = i + 1;
    }
    r
}

impl Schema {
    /// A schema of the definitions that every schema starts with, under the
    /// given identifiers.
    pub fn new(ids: &SchemaUuids) -> (r: Result<Self, OperationError>)
        ensures
            r is Ok,
            r->Ok_0@ == (SchemaView {
                classes: core_classes(*ids),
                attributes: core_attributes(*ids),
                unique_cache: Seq::empty(),
                ref_cache: Attributes::empty(),
            }),
            r->Ok_0@.wf(),
            consistent(r->Ok_0@.classes, r->Ok_0@.attributes),
    {
        proof {
            crate::bootstrap::law_core_is_consistent(*ids);
        }
        let state = SchemaState {
            classes: no_classes(),
            attributes: no_attributes(),
            unique_cache: Vec::new(),
            ref_cache: no_attributes(),
        };
        assert(state@.unique_cache =~= Seq::empty());
        let mut s = Schema { cell: new_cell(state) };
        let mut sw = s.write();
        match sw.generate_in_memory(ids) {
            Ok(_) => {},
            Err(e) => {
                return Err(e);
            },
        }
        match sw.commit() {
            Ok(_) => Ok(s),
            Err(e) => Err(e),
        }
    }

    /// Begins a transaction that reads the schema.
    pub fn read(&self) -> (r: SchemaReadTransaction)
        ensures
            r.schema() == self@,
    {
        SchemaReadTransaction { txn: read_cell(&self.cell) }
    }

    /// Begins a transaction that changes the schema.
    pub fn write<'a>(&'a mut self) -> (r: SchemaWriteTransaction<'a>)
        ensures
            r.schema() == old(self)@,
            *r.target() == *old(self),
            *final(r.target()) == *final(self),
    {
        let txn = read_cell(&self.cell);
        let state = show(&txn).clone();
        SchemaWriteTransaction { schema: self, state }
    }
}

/// What is read from a schema after a transaction on it was committed is what the
/// transaction saw at the end.
pub proof fn law_read_after_commit<'a>(
    txn: SchemaWriteTransaction<'a>,
    done: Result<(), OperationError>,
    after: Schema,
    seen: SchemaReadTransaction,
)
    requires
        call_ensures(SchemaWriteTransaction::<'a>::commit, (txn,), done),
        after == *final(txn.target()),
        call_ensures(Schema::read, (&after,), seen),
    ensures
        done is Ok,
        seen.schema() == txn.schema(),
{
}

/// Changes that are not committed are not seen. A read that begins while a
/// transaction is open, whatever that transaction has changed, shows what a read
/// showed that began before it.
pub proof fn law_open_transaction_is_not_seen<'a>(
    before: Schema,
    first: SchemaReadTransaction,
    txn: SchemaWriteTransaction<'a>,
    second: SchemaReadTransaction,
)
    requires
        call_ensures(Schema::read, (&before,), first),
        *txn.target() == before,
        call_ensures(SchemaWriteTransaction::<'a>::read_committed, (&txn,), second),
    ensures
        second.schema() == first.schema(),
{
}

/// Nor are they seen later. A read that begins after a transaction is over without
/// a commit shows what a read showed that began before it.
pub proof fn law_abandoned_transaction_is_not_seen<'a>(
    before: Schema,
    first: SchemaReadTransaction,
    txn: SchemaWriteTransaction<'a>,
    after: Schema,
    second: SchemaReadTransaction,
)
    requires
        call_ensures(Schema::read, (&before,), first),
        *txn.target() == before,
        has_resolved(txn),
        after == *final(txn.target()),
        call_ensures(Schema::read, (&after,), second),
    ensures
        second.schema() == first.schema(),
{
    law_abandoned_transaction(txn);
}

/// A transaction that is over without a commit has left the schema as it was when
/// the transaction began.
pub proof fn law_abandoned_transaction<'a>(txn: SchemaWriteTransaction<'a>)
    requires
        has_resolved(txn),
    ensures
        *final(txn.target()) == *txn.target(),
{
}

} // verus!
