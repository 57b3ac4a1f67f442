//! The hash tables that hold a schema, and what is trusted of them.
use crate::attribute::SchemaAttribute;
use crate::class::SchemaClass;
use crate::value::IndexType;
use hashbrown::{HashMap, HashSet};
use vstd::prelude::*;

verus! {

use crate::attribute::SchemaAttributeView;
use crate::class::SchemaClassView;

/// Attributes, each under a name.
pub type Attributes = Map<Seq<char>, SchemaAttributeView>;

/// Classes, each under a name.
pub type Classes = Map<Seq<char>, SchemaClassView>;

/// Attributes, each with a way to index it.
pub type Indexes = Set<(Seq<char>, IndexType)>;

/// What a table of attributes holds: an attribute for each of some names.
pub uninterp spec fn attributes_in(table: HashMap<String, SchemaAttribute>) -> Attributes;

/// What a table of classes holds: a class for each of some names.
pub uninterp spec fn classes_in(table: HashMap<String, SchemaClass>) -> Classes;

/// Whether `keys` names each key of `m` once.
pub open spec fn enumerates<V>(keys: Seq<Seq<char>>, m: Map<Seq<char>, V>) -> bool {
    &&& keys.no_duplicates()
    &&& forall|k: Seq<char>| keys.contains(k) <==> #[trigger] m.contains_key(k)
}

/// Whether `values` lists what `m` holds, once for each key, in some order.
pub open spec fn lists_values<V>(values: Seq<V>, m: Map<Seq<char>, V>) -> bool {
    exists|keys: Seq<Seq<char>>| #[trigger]
        enumerates(keys, m) && values == keys.map_values(|k: Seq<char>| m[k])
}

/// The contents of a list of attributes.
pub open spec fn attribute_views(list: Seq<&SchemaAttribute>) -> Seq<SchemaAttributeView> {
    list.map_values(|a: &SchemaAttribute| a@)
}

/// The contents of a list of classes.
pub open spec fn class_views(list: Seq<&SchemaClass>) -> Seq<SchemaClassView> {
    list.map_values(|c: &SchemaClass| c@)
}

/// An empty table of attributes.
///
/// Trusted: `HashMap::new` of `hashbrown` makes a table that holds nothing.
#[verifier::external_body]
pub(crate) fn no_attributes() -> (r: HashMap<String, SchemaAttribute>)
    ensures
        attributes_in(r) == Attributes::empty(),
{
    HashMap::new()
}

/// An empty table of classes.
///
/// Trusted: `HashMap::new` of `hashbrown` makes a table that holds nothing.
#[verifier::external_body]
pub(crate) fn no_classes() -> (r: HashMap<String, SchemaClass>)
    ensures
        classes_in(r) == Classes::empty(),
{
    HashMap::new()
}

/// Puts an attribute into a table.
///
/// Trusted: `HashMap::insert` of `hashbrown` sets what the table holds for the
/// key, in place of what it held for it before, and leaves the rest alone.
#[verifier::external_body]
pub(crate) fn insert_attribute(
    table: &mut HashMap<String, SchemaAttribute>,
    key: String,
    value: SchemaAttribute,
)
    ensures
        attributes_in(*final(table)) == attributes_in(*old(table)).insert(key@, value@),
{
    table.insert(key, value);
}

/// Puts a class into a table.
///
/// Trusted: `HashMap::insert` of `hashbrown` sets what the table holds for the
/// key, in place of what it held for it before, and leaves the rest alone.
#[verifier::external_body]
pub(crate) fn insert_class(
    table: &mut HashMap<String, SchemaClass>,
    key: String,
    value: SchemaClass,
)
    ensures
        classes_in(*final(table)) == classes_in(*old(table)).insert(key@, value@),
{
    table.insert(key, value);
}

/// Empties a table of attributes.
///
/// Trusted: `HashMap::clear` of `hashbrown` takes everything out of the table.
#[verifier::external_body]
pub(crate) fn clear_attributes(table: &mut HashMap<String, SchemaAttribute>)
    ensures
        attributes_in(*final(table)) == Attributes::empty(),
{
    table.clear();
}

/// Empties a table of classes.
///
/// Trusted: `HashMap::clear` of `hashbrown` takes everything out of the table.
#[verifier::external_body]
pub(crate) fn clear_classes(table: &mut HashMap<String, SchemaClass>)
    ensures
        classes_in(*final(table)) == Classes::empty(),
{
    table.clear();
}

/// Looks an attribute up.
///
/// Trusted: `HashMap::get` of `hashbrown` gives what the table holds for the
/// key, and `None` if it holds nothing for it.
#[verifier::external_body]
pub(crate) fn get_attribute<'a>(
    table: &'a HashMap<String, SchemaAttribute>,
    key: &str,
) -> (r: Option<&'a SchemaAttribute>)
    ensures
        match r {
            Some(a) => attributes_in(*table).contains_key(key@) && attributes_in(*table)[key@]
                == a@,
            None => !attributes_in(*table).contains_key(key@),
        },
{
    table.get(key)
}

/// Looks a class up.
///
/// Trusted: `HashMap::get` of `hashbrown` gives what the table holds for the
/// key, and `None` if it holds nothing for it.
#[verifier::external_body]
pub(crate) fn get_class<'a>(table: &'a HashMap<String, SchemaClass>, key: &str) -> (r: Option<
    &'a SchemaClass,
>)
    ensures
        match r {
            Some(c) => classes_in(*table).contains_key(key@) && classes_in(*table)[key@] == c@,
            None => !classes_in(*table).contains_key(key@),
        },
{
    table.get(key)
}

/// Whether a table has an attribute of a name.
///
/// Trusted: `HashMap::contains_key` of `hashbrown` tells whether the table
/// holds something for the key.
#[verifier::external_body]
pub(crate) fn has_attribute(table: &HashMap<String, SchemaAttribute>, key: &str) -> (r: bool)
    ensures
        r == attributes_in(*table).contains_key(key@),
{
    table.contains_key(key)
}

/// The attributes in a table.
///
/// Trusted: `HashMap::values` of `hashbrown` gives what the table holds, once
/// for each key, in an order of which nothing is said.
#[verifier::external_body]
pub(crate) fn attribute_values<'a>(table: &'a HashMap<String, SchemaAttribute>) -> (r: Vec<
    &'a SchemaAttribute,
>)
    ensures
        lists_values(attribute_views(r@), attributes_in(*table)),
{
    table.values().collect()
}

/// The classes in a table.
///
/// Trusted: `HashMap::values` of `hashbrown` gives what the table holds, once
/// for each key, in an order of which nothing is said.
#[verifier::external_body]
pub(crate) fn class_values<'a>(table: &'a HashMap<String, SchemaClass>) -> (r: Vec<
    &'a SchemaClass,
>)
    ensures
        lists_values(class_views(r@), classes_in(*table)),
{
    table.values().collect()
}

/// A copy of a table of attributes.
///
/// Trusted: `HashMap::clone` of `hashbrown` gives a table that holds a copy of
/// each value for the same key, and the copy of an attribute has the same
/// contents.
#[verifier::external_body]
pub(crate) fn copy_attributes(table: &HashMap<String, SchemaAttribute>) -> (r: HashMap<
    String,
    SchemaAttribute,
>)
    ensures
        attributes_in(r) == attributes_in(*table),
{
    table.clone()
}

/// A copy of a table of classes.
///
/// Trusted: `HashMap::clone` of `hashbrown` gives a table that holds a copy of
/// each value for the same key, and the copy of a class has the same contents.
#[verifier::external_body]
pub(crate) fn copy_classes(table: &HashMap<String, SchemaClass>) -> (r: HashMap<
    String,
    SchemaClass,
>)
    ensures
        classes_in(r) == classes_in(*table),
{
    table.clone()
}

/// An index that the backend keeps: an attribute, and how it is indexed.
#[derive(Debug, Eq, Hash)]
pub struct IdxKey {
    pub attr: String,
    pub itype: IndexType,
}

impl View for IdxKey {
    type V = (Seq<char>, IndexType);

    open spec fn view(&self) -> (Seq<char>, IndexType) {
        (self.attr@, self.itype)
    }
}

impl PartialEq for IdxKey {
    fn eq(&self, other: &Self) -> (r: bool) {
        self.attr == other.attr && self.itype == other.itype
    }
}

impl vstd::std_specs::cmp::PartialEqSpecImpl for IdxKey {
    open spec fn obeys_eq_spec() -> bool {
        true
    }

    open spec fn eq_spec(&self, other: &Self) -> bool {
        self@ == other@
    }
}

/// What a set of indexes holds.
pub uninterp spec fn indexes_in(set: HashSet<IdxKey>) -> Indexes;

/// An empty set of indexes.
///
/// Trusted: `HashSet::new` of `hashbrown` makes a set that holds nothing.
#[verifier::external_body]
pub(crate) fn no_indexes() -> (r: HashSet<IdxKey>)
    ensures
        indexes_in(r) == Indexes::empty(),
{
    HashSet::new()
}

/// Puts an index into a set.
///
/// Trusted: `HashSet::insert` of `hashbrown` adds the item to the set, if none
/// that equals it is there, and leaves the rest alone.
#[verifier::external_body]
pub(crate) fn insert_index(set: &mut HashSet<IdxKey>, key: IdxKey)
    ensures
        indexes_in(*final(set)) == indexes_in(*old(set)).insert(key@),
{
    set.insert(key);
}

} // verus!
