//! The content of a schema, and the cell that holds it.
use crate::attribute::SchemaAttribute;
use crate::class::{copy_names, SchemaClass};
use crate::tables::{copy_attributes, copy_classes};
use concread::cowcell::{CowCell, CowCellReadTxn};
use hashbrown::HashMap;
use vstd::prelude::*;

verus! {

use crate::text::texts;
use crate::tables::{attributes_in, classes_in, Attributes, Classes};

/// The content of a schema: its classes and attributes by name, the names of the
/// attributes whose values are unique, and the attributes that refer to other
/// entries.
pub struct SchemaState {
    pub classes: HashMap<String, SchemaClass>,
    pub attributes: HashMap<String, SchemaAttribute>,
    pub unique_cache: Vec<String>,
    pub ref_cache: HashMap<String, SchemaAttribute>,
}

/// The contents of a [`SchemaState`].
pub struct SchemaView {
    pub classes: Classes,
    pub attributes: Attributes,
    pub unique_cache: Seq<Seq<char>>,
    pub ref_cache: Attributes,
}

impl View for SchemaState {
    type V = SchemaView;

    open spec fn view(&self) -> SchemaView {
        SchemaView {
            classes: classes_in(self.classes),
            attributes: attributes_in(self.attributes),
            unique_cache: texts(self.unique_cache@),
            ref_cache: attributes_in(self.ref_cache),
        }
    }
}

impl Clone for SchemaState {
    fn clone(&self) -> (r: Self)
        ensures
            r@ == self@,
    {
        SchemaState {
            classes: copy_classes(&self.classes),
            attributes: copy_attributes(&self.attributes),
            unique_cache: copy_names(&self.unique_cache),
            ref_cache: copy_attributes(&self.ref_cache),
        }
    }
}

impl SchemaView {
    /// Whether everything stands under its own name, and among the references
    /// only what refers.
    pub open spec fn wf(self) -> bool {
        &&& forall|n: Seq<char>| #[trigger]
            self.classes.contains_key(n) ==> self.classes[n].name == n
        &&& forall|n: Seq<char>| #[trigger]
            self.attributes.contains_key(n) ==> self.attributes[n].name == n
        &&& forall|n: Seq<char>| #[trigger]
            self.ref_cache.contains_key(n) ==> self.ref_cache[n].name == n
                && self.ref_cache[n].syntax == crate::value::SyntaxType::REFERENCE_UUID
    }
}

/// What a cell holds.
pub uninterp spec fn held(cell: CowCell<SchemaState>) -> SchemaState;

/// What a read transaction on a cell shows.
pub uninterp spec fn shown(txn: CowCellReadTxn<SchemaState>) -> SchemaState;

/// A cell that holds the state.
///
/// Trusted: `CowCell::new` of `concread` makes a cell of the value it is given.
#[verifier::external_body]
pub(crate) fn new_cell(state: SchemaState) -> (r: CowCell<SchemaState>)
    ensures
        held(r) == state,
{
    CowCell::new(state)
}

/// Begins a read transaction on a cell.
///
/// Trusted: `CowCell::read` of `concread` hands out what the cell holds at that
/// time, and what was handed out does not change when the cell does.
#[verifier::external_body]
pub(crate) fn read_cell(cell: &CowCell<SchemaState>) -> (r: CowCellReadTxn<SchemaState>)
    ensures
        shown(r) == held(*cell),
{
    cell.read()
}

/// What a read transaction shows.
///
/// Trusted: `CowCellReadTxn` of `concread` dereferences to what it was handed.
#[verifier::external_body]
pub(crate) fn show(txn: &CowCellReadTxn<SchemaState>) -> (r: &SchemaState)
    ensures
        *r == shown(*txn),
{
    txn
}

/// Has a cell hold another state.
///
/// Trusted: a write transaction that `CowCell::write` of `concread` begins, and
/// through which the content is replaced, makes the cell hold the replacement
/// once `CowCellWriteTxn::commit` is called. The cell is borrowed exclusively,
/// so no other writer holds its lock.
#[verifier::external_body]
pub(crate) fn store(cell: &mut CowCell<SchemaState>, state: SchemaState)
    ensures
        held(*final(cell)) == state,
{
    let mut txn = cell.write();
    *txn = state;
    txn.commit();
}

} // verus!
