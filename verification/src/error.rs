//! What can be wrong with an entry, a schema or an operation.
use vstd::prelude::*;

verus! {

use crate::text::texts;

/// Why an entry or a filter does not comply with the schema.
#[derive(Debug, PartialEq, Eq)]
pub enum SchemaError {
    /// The entry has no class.
    NoClassFound,
    /// The entry has classes that the schema does not know.
    InvalidClass(Vec<String>),
    /// Attributes that a class demands are missing.
    MissingMustAttribute(Vec<String>),
    /// The attribute is not known, or none of the classes has it.
    InvalidAttribute(String),
    /// A value of the attribute is not of the kind that it holds.
    InvalidAttributeSyntax(String),
    /// The attribute cannot be stored.
    PhantomAttribute(String),
    /// A filter joins nothing.
    EmptyFilter,
    /// A class of the schema names an attribute that the schema does not know.
    Corrupted,
}

/// The contents of a [`SchemaError`].
pub enum SchemaErrorView {
    NoClassFound,
    InvalidClass(Seq<Seq<char>>),
    MissingMustAttribute(Seq<Seq<char>>),
    InvalidAttribute(Seq<char>),
    InvalidAttributeSyntax(Seq<char>),
    PhantomAttribute(Seq<char>),
    EmptyFilter,
    Corrupted,
}

impl View for SchemaError {
    type V = SchemaErrorView;

    open spec fn view(&self) -> SchemaErrorView {
        match self {
            SchemaError::NoClassFound => SchemaErrorView::NoClassFound,
            SchemaError::InvalidClass(c) => SchemaErrorView::InvalidClass(texts(c@)),
            SchemaError::MissingMustAttribute(a) => SchemaErrorView::MissingMustAttribute(
                texts(a@),
            ),
            SchemaError::InvalidAttribute(a) => SchemaErrorView::InvalidAttribute(a@),
            SchemaError::InvalidAttributeSyntax(a) => SchemaErrorView::InvalidAttributeSyntax(a@),
            SchemaError::PhantomAttribute(a) => SchemaErrorView::PhantomAttribute(a@),
            SchemaError::EmptyFilter => SchemaErrorView::EmptyFilter,
            SchemaError::Corrupted => SchemaErrorView::Corrupted,
        }
    }
}

/// What is wrong with a schema.
#[derive(Debug, PartialEq, Eq)]
pub enum ConsistencyError {
    /// The class, named first, names an attribute that the schema does not know.
    SchemaClassMissingAttribute(String, String),
    /// The class, named first, names an attribute that cannot be stored.
    SchemaClassPhantomAttribute(String, String),
}

/// The contents of a [`ConsistencyError`].
pub enum ConsistencyErrorView {
    SchemaClassMissingAttribute(Seq<char>, Seq<char>),
    SchemaClassPhantomAttribute(Seq<char>, Seq<char>),
}

impl View for ConsistencyError {
    type V = ConsistencyErrorView;

    open spec fn view(&self) -> ConsistencyErrorView {
        match self {
            ConsistencyError::SchemaClassMissingAttribute(
                c,
                a,
            ) => ConsistencyErrorView::SchemaClassMissingAttribute(c@, a@),
            ConsistencyError::SchemaClassPhantomAttribute(
                c,
                a,
            ) => ConsistencyErrorView::SchemaClassPhantomAttribute(c@, a@),
        }
    }
}

/// The contents of a report on a schema.
pub open spec fn report(found: Seq<Result<(), ConsistencyError>>) -> Seq<
    Result<(), ConsistencyErrorView>,
> {
    found.map_values(
        |r: Result<(), ConsistencyError>|
            match r {
                Ok(_) => Ok::<(), ConsistencyErrorView>(()),
                Err(e) => Err(e@),
            },
    )
}

/// Why an operation on the schema failed.
#[derive(Debug, PartialEq, Eq)]
pub enum OperationError {
    /// An entry does not define what it should.
    InvalidSchemaState(String),
    /// The schema is not consistent.
    ConsistencyError(Vec<Result<(), ConsistencyError>>),
}

/// The contents of an [`OperationError`].
pub enum OperationErrorView {
    InvalidSchemaState(Seq<char>),
    ConsistencyError(Seq<Result<(), ConsistencyErrorView>>),
}

impl View for OperationError {
    type V = OperationErrorView;

    open spec fn view(&self) -> OperationErrorView {
        match self {
            OperationError::InvalidSchemaState(s) => OperationErrorView::InvalidSchemaState(s@),
            OperationError::ConsistencyError(r) => OperationErrorView::ConsistencyError(
                report(r@),
            ),
        }
    }
}

/// The error for an entry that does not define what it should.
pub(crate) fn invalid_state(reason: &str) -> (r: OperationError)
    ensures
        r@ == OperationErrorView::InvalidSchemaState(reason@),
{
    OperationError::InvalidSchemaState(reason.to_owned())
}

} // verus!
