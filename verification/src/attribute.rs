//! Attributes: the rules for the values that go by one name.
use crate::entry::SealedEntry;
use crate::error::{invalid_state, OperationError, SchemaError};
use crate::value::{IndexType, PartialValue, SyntaxType, Value, ValueSet};
use uuid::Uuid;
use vstd::prelude::*;

verus! {

use crate::entry::SealedEntryView;
use crate::error::{OperationErrorView, SchemaErrorView};
use crate::value::{PartialValueView, ValueView};

/// An attribute and the rules that enforce it: whether it may hold more than one
/// value, whether its values must be unique amongst all entries, whether it is
/// generated and so never stored, how it is indexed, and what kind of data it
/// holds.
#[derive(Debug)]
pub struct SchemaAttribute {
    pub name: String,
    pub uuid: Uuid,
    pub description: String,
    pub multivalue: bool,
    pub unique: bool,
    pub phantom: bool,
    pub index: Vec<IndexType>,
    pub syntax: SyntaxType,
}

/// The contents of a [`SchemaAttribute`].
pub struct SchemaAttributeView {
    pub name: Seq<char>,
    pub uuid: Uuid,
    pub description: Seq<char>,
    pub multivalue: bool,
    pub unique: bool,
    pub phantom: bool,
    pub index: Seq<IndexType>,
    pub syntax: SyntaxType,
}

impl View for SchemaAttribute {
    type V = SchemaAttributeView;

    open spec fn view(&self) -> SchemaAttributeView {
        SchemaAttributeView {
            name: self.name@,
            uuid: self.uuid,
            description: self.description@,
            multivalue: self.multivalue,
            unique: self.unique,
            phantom: self.phantom,
            index: self.index@,
            syntax: self.syntax,
        }
    }
}

impl Clone for SchemaAttribute {
    fn clone(&self) -> (r: Self)
        ensures
            r@ == self@,
    {
        let index = self.index.clone();
        assert(index@ =~= self.index@);
        SchemaAttribute {
            name: self.name.clone(),
            uuid: self.uuid,
            description: self.description.clone(),
            multivalue: self.multivalue,
            unique: self.unique,
            phantom: self.phantom,
            index,
            syntax: self.syntax,
        }
    }
}

/// The attribute that an entry defines, or what the entry lacks for that.
pub open spec fn attribute_of(e: SealedEntryView) -> Result<SchemaAttributeView, Seq<char>> {
    let name = crate::entry::single_str(e.attrs, "attributename"@);
    let description = crate::entry::single_str(e.attrs, "description"@);
    let multivalue = crate::entry::single_bool(e.attrs, "multivalue"@);
    let unique = crate::entry::single_bool(e.attrs, "unique"@);
    let phantom = crate::entry::single_bool(e.attrs, "phantom"@);
    let index = crate::entry::opt_index(e.attrs, "index"@);
    let syntax = crate::entry::single_syntax(e.attrs, "syntax"@);
    if !crate::entry::has_value(
        e.attrs,
        "class"@,
        PartialValueView::Iutf8("attributetype"@),
    ) {
        Err("missing attributetype"@)
    } else if name is None {
        Err("missing attributename"@)
    } else if description is None {
        Err("missing description"@)
    } else if multivalue is None {
        Err("missing multivalue"@)
    } else if unique is None {
        Err("missing unique"@)
    } else if index is Err {
        Err("Invalid index"@)
    } else if syntax is None {
        Err("missing syntax"@)
    } else {
        Ok(
            SchemaAttributeView {
                name: name->0,
                uuid: e.uuid,
                description: description->0,
                multivalue: multivalue->0,
                unique: unique->0,
                phantom: phantom == Some(true),
                index: index->Ok_0,
                syntax: syntax->0,
            },
        )
    }
}

impl SchemaAttributeView {
    /// Whether a set of values may stand under this attribute.
    pub open spec fn accepts(self, values: Seq<ValueView>) -> bool {
        &&& self.multivalue || values.len() <= 1
        &&& forall|i: int|
            0 <= i < values.len() ==> self.syntax.admits((#[trigger] values[i]).partial)
    }
}

impl SchemaAttribute {
    /// Reads the attribute that an entry defines.
    pub fn try_from(value: &SealedEntry) -> (r: Result<Self, OperationError>)
        ensures
            match r {
                Ok(a) => attribute_of(value@) == Ok::<SchemaAttributeView, Seq<char>>(a@),
                Err(e) => match attribute_of(value@) {
                    Ok(_) => false,
                    Err(reason) => e@ == OperationErrorView::InvalidSchemaState(reason),
                },
            },
    {
        let entry = &value.entry;
        if !entry.attribute_value_pres(
            "class",
            &PartialValue::Iutf8("attributetype".to_owned()),
        ) {
            return Err(invalid_state("missing attributetype"));
        }
        let uuid = value.get_uuid();
        let name = match entry.get_ava_single_str("attributename") {
            Some(s) => s.clone(),
            None => {
                return Err(invalid_state("missing attributename"));
            },
        };
        let description = match entry.get_ava_single_str("description") {
            Some(s) => s.clone(),
            None => {
                return Err(invalid_state("missing description"));
            },
        };
        let multivalue = match entry.get_ava_single_bool("multivalue") {
            Some(b) => b,
            None => {
                return Err(invalid_state("missing multivalue"));
            },
        };
        let unique = match entry.get_ava_single_bool("unique") {
            Some(b) => b,
            None => {
                return Err(invalid_state("missing unique"));
            },
        };
        let phantom = match entry.get_ava_single_bool("phantom") {
            Some(b) => b,
            None => false,
        };
        let index = match entry.get_ava_opt_index("index") {
            Ok(i) => i,
            Err(_) => {
                return Err(invalid_state("Invalid index"));
            },
        };
        let syntax = match entry.get_ava_single_syntax("syntax") {
            Some(s) => s,
            None => {
                return Err(invalid_state("missing syntax"));
            },
        };
        Ok(
            SchemaAttribute {
                name,
                uuid,
                description,
                multivalue,
                unique,
                phantom,
                index,
                syntax,
            },
        )
    }

    /// Whether a value, as a filter states it, is of the kind that the attribute
    /// holds. The error names the attribute as `a`.
    pub fn validate_partialvalue(&self, a: &str, v: &PartialValue) -> (r: Result<(), SchemaError>)
        ensures
            r is Ok <==> self@.syntax.admits(v@),
            r matches Err(e) ==> e@ == SchemaErrorView::InvalidAttributeSyntax(a@),
    {
        let r = match self.syntax {
            SyntaxType::BOOLEAN => v.is_bool(),
            SyntaxType::SYNTAX_ID => v.is_syntax(),
            SyntaxType::INDEX_ID => v.is_index(),
            SyntaxType::UUID => v.is_uuid(),
            SyntaxType::REFERENCE_UUID => v.is_refer(),
            SyntaxType::UTF8STRING_INSENSITIVE => v.is_iutf8(),
            SyntaxType::UTF8STRING_INAME => v.is_iname(),
            SyntaxType::UTF8STRING => v.is_utf8(),
            SyntaxType::JSON_FILTER => v.is_json_filter(),
            SyntaxType::CREDENTIAL => v.is_credential(),
            SyntaxType::RADIUS_UTF8STRING => v.is_radius_string(),
            SyntaxType::SSHKEY => v.is_sshkey(),
            SyntaxType::SERVICE_PRINCIPLE_NAME => v.is_spn(),
            SyntaxType::UINT32 => v.is_uint32(),
            SyntaxType::CID => v.is_cid(),
            SyntaxType::NSUNIQUEID => v.is_nsuniqueid(),
        };
        if r {
            Ok(())
        } else {
            Err(SchemaError::InvalidAttributeSyntax(a.to_owned()))
        }
    }

    /// Whether a value of an entry is whole and of the kind that the attribute
    /// holds. The error names the attribute as `a`.
    pub fn validate_value(&self, a: &str, v: &Value) -> (r: Result<(), SchemaError>)
        ensures
            r is Ok <==> v@.valid && self@.syntax.admits(v@.partial),
            r matches Err(e) ==> e@ == SchemaErrorView::InvalidAttributeSyntax(a@),
    {
        if v.validate() {
            self.validate_partialvalue(a, &v.partial)
        } else {
            Err(SchemaError::InvalidAttributeSyntax(a.to_owned()))
        }
    }

    /// Whether a set of values may stand under the attribute: no more than one
    /// unless it takes several, and each of the kind that it holds. The error
    /// names the attribute as `a`.
    pub fn validate_ava(&self, a: &str, ava: &ValueSet) -> (r: Result<(), SchemaError>)
        ensures
            r is Ok <==> self@.accepts(ava@),
            r matches Err(e) ==> e@ == SchemaErrorView::InvalidAttributeSyntax(a@),
    {
        if !self.multivalue && ava.len() > 1 {
            return Err(SchemaError::InvalidAttributeSyntax(a.to_owned()));
        }
        let mut i: usize = 0;
        while i < ava.len()
            invariant
                i <= ava@.len(),
                self.multivalue || ava@.len() <= 1,
                forall|j: int|
                    0 <= j < i ==> self@.syntax.admits((#[trigger] ava@[j]).partial),
            decreases ava@.len() - i,
        {
            match self.validate_partialvalue(a, &ava.get(i).partial) {
                Ok(_) => {},
                Err(e) => {
                    assert(!self@.syntax.admits(ava@[i as int].partial));
                    return Err(e);
                },
            }
            i = i + 1;
        }
        Ok(())
    }
}

} // verus!
