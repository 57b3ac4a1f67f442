//! Classes: which attributes an entry must and may have.
use crate::entry::SealedEntry;
use crate::error::{invalid_state, OperationError};
use crate::value::PartialValue;
use uuid::Uuid;
use vstd::prelude::*;

verus! {

use crate::entry::SealedEntryView;
use crate::error::OperationErrorView;
use crate::text::texts;
use crate::value::PartialValueView;

/// A class and its rules: which attributes an entry of the class must have and
/// which it may have. What the project provides stands in `systemmust` and
/// `systemmay` and cannot be altered; an administrator may extend it in `must`
/// and `may`.
///
/// Classes are additive: of two classes the `may` rules unite, and an attribute
/// that one class demands is demanded, even if another only allows it. So
/// classes can never be combined in a way that contradicts itself.
#[derive(Debug)]
pub struct SchemaClass {
    pub name: String,
    pub uuid: Uuid,
    pub description: String,
    pub systemmay: Vec<String>,
    pub may: Vec<String>,
    pub systemmust: Vec<String>,
    pub must: Vec<String>,
}

/// The contents of a [`SchemaClass`].
pub struct SchemaClassView {
    pub name: Seq<char>,
    pub uuid: Uuid,
    pub description: Seq<char>,
    pub systemmay: Seq<Seq<char>>,
    pub may: Seq<Seq<char>>,
    pub systemmust: Seq<Seq<char>>,
    pub must: Seq<Seq<char>>,
}

impl View for SchemaClass {
    type V = SchemaClassView;

    open spec fn view(&self) -> SchemaClassView {
        SchemaClassView {
            name: self.name@,
            uuid: self.uuid,
            description: self.description@,
            systemmay: texts(self.systemmay@),
            may: texts(self.may@),
            systemmust: texts(self.systemmust@),
            must: texts(self.must@),
        }
    }
}

/// A copy of a list of names.
pub(crate) fn copy_names(names: &Vec<String>) -> (r: Vec<String>)
    ensures
        texts(r@) == texts(names@),
{
    let mut r: Vec<String> = Vec::new();
    let mut i: usize = 0;
    while i < names.len()
        invariant
            i <= names.len(),
            r.len() == i,
            forall|j: int| 0 <= j < i ==> (#[trigger] r@[j])@ == names@[j]@,
        decreases names.len() - i,
    {
        r.push(names[i].clone());
        i = i + 1;
    }
    assert(texts(r@) =~= texts(names@));
    r
}

impl Clone for SchemaClass {
    fn clone(&self) -> (r: Self)
        ensures
            r@ == self@,
    {
        SchemaClass {
            name: self.name.clone(),
            uuid: self.uuid,
            description: self.description.clone(),
            systemmay: copy_names(&self.systemmay),
            may: copy_names(&self.may),
            systemmust: copy_names(&self.systemmust),
            must: copy_names(&self.must),
        }
    }
}

/// The class that an entry defines, or what the entry lacks for that.
pub open spec fn class_of(e: SealedEntryView) -> Result<SchemaClassView, Seq<char>> {
    let name = crate::entry::single_str(e.attrs, "classname"@);
    let description = crate::entry::single_str(e.attrs, "description"@);
    if !crate::entry::has_value(e.attrs, "class"@, PartialValueView::Iutf8("classtype"@)) {
        Err("missing classtype"@)
    } else if name is None {
        Err("missing classname"@)
    } else if description is None {
        Err("missing description"@)
    } else {
        Ok(
            SchemaClassView {
                name: name->0,
                uuid: e.uuid,
                description: description->0,
                systemmay: crate::entry::text_list(e.attrs, "systemmay"@),
                may: crate::entry::text_list(e.attrs, "may"@),
                systemmust: crate::entry::text_list(e.attrs, "systemmust"@),
                must: crate::entry::text_list(e.attrs, "must"@),
            },
        )
    }
}

impl SchemaClass {
    /// Reads the class that an entry defines.
    pub fn try_from(value: &SealedEntry) -> (r: Result<Self, OperationError>)
        ensures
            match r {
                Ok(c) => class_of(value@) == Ok::<SchemaClassView, Seq<char>>(c@),
                Err(e) => match class_of(value@) {
                    Ok(_) => false,
                    Err(reason) => e@ == OperationErrorView::InvalidSchemaState(reason),
                },
            },
    {
        let entry = &value.entry;
        if !entry.attribute_value_pres("class", &PartialValue::Iutf8("classtype".to_owned())) {
            return Err(invalid_state("missing classtype"));
        }
        let uuid = value.get_uuid();
        let name = match entry.get_ava_single_str("classname") {
            Some(s) => s.clone(),
            None => {
                return Err(invalid_state("missing classname"));
            },
        };
        let description = match entry.get_ava_single_str("description") {
            Some(s) => s.clone(),
            None => {
                return Err(invalid_state("missing description"));
            },
        };
        let systemmay = entry.get_ava_as_str("systemmay");
        let systemmust = entry.get_ava_as_str("systemmust");
        let may = entry.get_ava_as_str("may");
        let must = entry.get_ava_as_str("must");
        Ok(SchemaClass { name, uuid, description, systemmay, may, systemmust, must })
    }
}

} // verus!
