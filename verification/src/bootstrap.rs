//! The definitions that a schema starts with: those by which all others can be
//! read.
use crate::attribute::SchemaAttribute;
use crate::class::SchemaClass;
use crate::tables::{insert_attribute, insert_class};
use crate::value::{IndexType, SyntaxType};
use hashbrown::HashMap;
use uuid::Uuid;
use vstd::prelude::*;

verus! {

use crate::attribute::{attribute_of, SchemaAttributeView};
use crate::class::{class_of, SchemaClassView};
use crate::consistency::consistent;
use crate::definition::{
    attribute_entry, class_entry, indexes_ascend, law_attribute_round_trip, law_class_round_trip,
    lists_in_order, lowered,
};
use crate::entry::SealedEntryView;
use crate::tables::{attributes_in, classes_in, Attributes, Classes};
use crate::text::{is_ascii_text, lower, texts};

/// The identifiers of the definitions that a schema starts with.
#[derive(Clone, Copy, Debug)]
pub struct SchemaUuids {
    pub schema_attr_class: Uuid,
    pub schema_attr_uuid: Uuid,
    pub schema_attr_last_mod_cid: Uuid,
    pub schema_attr_name: Uuid,
    pub schema_attr_spn: Uuid,
    pub schema_attr_attributename: Uuid,
    pub schema_attr_classname: Uuid,
    pub schema_attr_description: Uuid,
    pub schema_attr_multivalue: Uuid,
    pub schema_attr_phantom: Uuid,
    pub schema_attr_unique: Uuid,
    pub schema_attr_index: Uuid,
    pub schema_attr_syntax: Uuid,
    pub schema_attr_systemmay: Uuid,
    pub schema_attr_may: Uuid,
    pub schema_attr_systemmust: Uuid,
    pub schema_attr_must: Uuid,
    pub schema_attr_acp_enable: Uuid,
    pub schema_attr_acp_receiver: Uuid,
    pub schema_attr_acp_targetscope: Uuid,
    pub schema_attr_acp_search_attr: Uuid,
    pub schema_attr_acp_create_class: Uuid,
    pub schema_attr_acp_create_attr: Uuid,
    pub schema_attr_acp_modify_removedattr: Uuid,
    pub schema_attr_acp_modify_presentattr: Uuid,
    pub schema_attr_acp_modify_class: Uuid,
    pub schema_attr_memberof: Uuid,
    pub schema_attr_directmemberof: Uuid,
    pub schema_attr_member: Uuid,
    pub schema_attr_version: Uuid,
    pub schema_attr_domain: Uuid,
    pub schema_attr_claim: Uuid,
    pub schema_attr_password_import: Uuid,
    pub schema_attr_dn: Uuid,
    pub schema_attr_entryuuid: Uuid,
    pub schema_attr_objectclass: Uuid,
    pub schema_class_attributetype: Uuid,
    pub schema_class_classtype: Uuid,
    pub schema_class_object: Uuid,
    pub schema_class_memberof: Uuid,
    pub schema_class_extensibleobject: Uuid,
    pub schema_class_recycled: Uuid,
    pub schema_class_tombstone: Uuid,
    pub schema_class_system_info: Uuid,
    pub schema_class_access_control_profile: Uuid,
    pub schema_class_access_control_search: Uuid,
    pub schema_class_access_control_delete: Uuid,
    pub schema_class_access_control_modify: Uuid,
    pub schema_class_access_control_create: Uuid,
    pub schema_class_system: Uuid,
}

/// Puts what every object has under its name.
pub open spec fn with_object_attributes(m: Attributes, ids: SchemaUuids) -> Attributes {
    m.insert(
        "class"@,
        SchemaAttributeView {
            name: "class"@,
            uuid: ids.schema_attr_class,
            description: "The set of classes defining an object"@,
            multivalue: true,
            unique: false,
            phantom: false,
            index: seq![IndexType::EQUALITY, IndexType::PRESENCE],
            syntax: SyntaxType::UTF8STRING_INSENSITIVE,
        },
    ).insert(
        "uuid"@,
        SchemaAttributeView {
            name: "uuid"@,
            uuid: ids.schema_attr_uuid,
            description: "The universal unique id of the object"@,
            multivalue: false,
            unique: false,
            phantom: false,
            index: seq![IndexType::EQUALITY, IndexType::PRESENCE],
            syntax: SyntaxType::UUID,
        },
    ).insert(
        "last_modified_cid"@,
        SchemaAttributeView {
            name: "last_modified_cid"@,
            uuid: ids.schema_attr_last_mod_cid,
            description: "The cid of the last change to this object"@,
            multivalue: false,
            unique: false,
            phantom: false,
            index: seq![],
            syntax: SyntaxType::CID,
        },
    ).insert(
        "name"@,
        SchemaAttributeView {
            name: "name"@,
            uuid: ids.schema_attr_name,
            description: "The shortform name of an object"@,
            multivalue: false,
            unique: true,
            phantom: false,
            index: seq![IndexType::EQUALITY, IndexType::PRESENCE],
            syntax: SyntaxType::UTF8STRING_INAME,
        },
    ).insert(
        "spn"@,
        SchemaAttributeView {
            name: "spn"@,
            uuid: ids.schema_attr_spn,
            description: "The service principle name of an object, unique across all domain trusts"@,
            multivalue: false,
            unique: true,
            phantom: false,
            index: seq![IndexType::EQUALITY],
            syntax: SyntaxType::SERVICE_PRINCIPLE_NAME,
        },
    )
}

/// Puts what the definition of an attribute or a class has under its name.
pub open spec fn with_definition_attributes(m: Attributes, ids: SchemaUuids) -> Attributes {
    m.insert(
        "attributename"@,
        SchemaAttributeView {
            name: "attributename"@,
            uuid: ids.schema_attr_attributename,
            description: "The name of a schema attribute"@,
            multivalue: false,
            unique: true,
            phantom: false,
            index: seq![IndexType::EQUALITY],
            syntax: SyntaxType::UTF8STRING_INSENSITIVE,
        },
    ).insert(
        "classname"@,
        SchemaAttributeView {
            name: "classname"@,
            uuid: ids.schema_attr_classname,
            description: "The name of a schema class"@,
            multivalue: false,
            unique: true,
            phantom: false,
            index: seq![IndexType::EQUALITY],
            syntax: SyntaxType::UTF8STRING_INSENSITIVE,
        },
    ).insert(
        "description"@,
        SchemaAttributeView {
            name: "description"@,
            uuid: ids.schema_attr_description,
            description: "A description of an attribute, object or class"@,
            multivalue: true,
            unique: false,
            phantom: false,
            index: seq![],
            syntax: SyntaxType::UTF8STRING,
        },
    ).insert(
        "multivalue"@,
        SchemaAttributeView {
            name: "multivalue"@,
            uuid: ids.schema_attr_multivalue,
            description: "If true, this attribute is able to store multiple values rather than just a single value."@,
            multivalue: false,
            unique: false,
            phantom: false,
            index: seq![],
            syntax: SyntaxType::BOOLEAN,
        },
    ).insert(
        "phantom"@,
        SchemaAttributeView {
            name: "phantom"@,
            uuid: ids.schema_attr_phantom,
            description: "If true, this attribute must NOT be present in any may/must sets of a class as. This represents generated attributes."@,
            multivalue: false,
            unique: false,
            phantom: false,
            index: seq![],
            syntax: SyntaxType::BOOLEAN,
        },
    ).insert(
        "unique"@,
        SchemaAttributeView {
            name: "unique"@,
            uuid: ids.schema_attr_unique,
            description: "If true, this attribute must store a unique value through out the database."@,
            multivalue: false,
            unique: false,
            phantom: false,
            index: seq![],
            syntax: SyntaxType::BOOLEAN,
        },
    ).insert(
        "index"@,
        SchemaAttributeView {
            name: "index"@,
            uuid: ids.schema_attr_index,
            description: "Describe the indexes to apply to instances of this attribute."@,
            multivalue: true,
            unique: false,
            phantom: false,
            index: seq![],
            syntax: SyntaxType::INDEX_ID,
        },
    ).insert(
        "syntax"@,
        SchemaAttributeView {
            name: "syntax"@,
            uuid: ids.schema_attr_syntax,
            description: "Describe the syntax of this attribute. This affects indexing and sorting."@,
            multivalue: false,
            unique: false,
            phantom: false,
            index: seq![IndexType::EQUALITY],
            syntax: SyntaxType::SYNTAX_ID,
        },
    ).insert(
        "systemmay"@,
        SchemaAttributeView {
            name: "systemmay"@,
            uuid: ids.schema_attr_systemmay,
            description: "A list of system provided optional attributes this class can store."@,
            multivalue: true,
            unique: false,
            phantom: false,
            index: seq![],
            syntax: SyntaxType::UTF8STRING_INSENSITIVE,
        },
    ).insert(
        "may"@,
        SchemaAttributeView {
            name: "may"@,
            uuid: ids.schema_attr_may,
            description: "A user modifiable list of optional attributes this class can store."@,
            multivalue: true,
            unique: false,
            phantom: false,
            index: seq![],
            syntax: SyntaxType::UTF8STRING_INSENSITIVE,
        },
    ).insert(
        "systemmust"@,
        SchemaAttributeView {
            name: "systemmust"@,
            uuid: ids.schema_attr_systemmust,
            description: "A list of system provided required attributes this class must store."@,
            multivalue: true,
            unique: false,
            phantom: false,
            index: seq![],
            syntax: SyntaxType::UTF8STRING_INSENSITIVE,
        },
    ).insert(
        "must"@,
        SchemaAttributeView {
            name: "must"@,
            uuid: ids.schema_attr_must,
            description: "A user modifiable list of required attributes this class must store."@,
            multivalue: true,
            unique: false,
            phantom: false,
            index: seq![],
            syntax: SyntaxType::UTF8STRING_INSENSITIVE,
        },
    )
}

/// Puts what access controls have under its name.
pub open spec fn with_access_attributes(m: Attributes, ids: SchemaUuids) -> Attributes {
    m.insert(
        "acp_enable"@,
        SchemaAttributeView {
            name: "acp_enable"@,
            uuid: ids.schema_attr_acp_enable,
            description: "A flag to determine if this ACP is active for application. True is enabled, and enforce. False is checked but not enforced."@,
            multivalue: false,
            unique: false,
            phantom: false,
            index: seq![IndexType::EQUALITY],
            syntax: SyntaxType::BOOLEAN,
        },
    ).insert(
        "acp_receiver"@,
        SchemaAttributeView {
            name: "acp_receiver"@,
            uuid: ids.schema_attr_acp_receiver,
            description: "Who the ACP applies to, constraining or allowing operations."@,
            multivalue: false,
            unique: false,
            phantom: false,
            index: seq![IndexType::EQUALITY, IndexType::SUBSTRING],
            syntax: SyntaxType::JSON_FILTER,
        },
    ).insert(
        "acp_targetscope"@,
        SchemaAttributeView {
            name: "acp_targetscope"@,
            uuid: ids.schema_attr_acp_targetscope,
            description: "The effective targets of the ACP, IE what will be acted upon."@,
            multivalue: false,
            unique: false,
            phantom: false,
            index: seq![IndexType::EQUALITY, IndexType::SUBSTRING],
            syntax: SyntaxType::JSON_FILTER,
        },
    ).insert(
        "acp_search_attr"@,
        SchemaAttributeView {
            name: "acp_search_attr"@,
            uuid: ids.schema_attr_acp_search_attr,
            description: "The attributes that may be viewed or searched by the reciever on targetscope."@,
            multivalue: true,
            unique: false,
            phantom: false,
            index: seq![IndexType::EQUALITY],
            syntax: SyntaxType::UTF8STRING_INSENSITIVE,
        },
    ).insert(
        "acp_create_class"@,
        SchemaAttributeView {
            name: "acp_create_class"@,
            uuid: ids.schema_attr_acp_create_class,
            description: "The set of classes that can be created on a new entry."@,
            multivalue: true,
            unique: false,
            phantom: false,
            index: seq![IndexType::EQUALITY],
            syntax: SyntaxType::UTF8STRING_INSENSITIVE,
        },
    ).insert(
        "acp_create_attr"@,
        SchemaAttributeView {
            name: "acp_create_attr"@,
            uuid: ids.schema_attr_acp_create_attr,
            description: "The set of attribute types that can be created on an entry."@,
            multivalue: true,
            unique: false,
            phantom: false,
            index: seq![IndexType::EQUALITY],
            syntax: SyntaxType::UTF8STRING_INSENSITIVE,
        },
    ).insert(
        "acp_modify_removedattr"@,
        SchemaAttributeView {
            name: "acp_modify_removedattr"@,
            uuid: ids.schema_attr_acp_modify_removedattr,
            description: "The set of attribute types that could be removed or purged in a modification."@,
            multivalue: true,
            unique: false,
            phantom: false,
            index: seq![IndexType::EQUALITY],
            syntax: SyntaxType::UTF8STRING_INSENSITIVE,
        },
    ).insert(
        "acp_modify_presentattr"@,
        SchemaAttributeView {
            name: "acp_modify_presentattr"@,
            uuid: ids.schema_attr_acp_modify_presentattr,
            description: "The set of attribute types that could be added or asserted in a modification."@,
            multivalue: true,
            unique: false,
            phantom: false,
            index: seq![IndexType::EQUALITY],
            syntax: SyntaxType::UTF8STRING_INSENSITIVE,
        },
    ).insert(
        "acp_modify_class"@,
        SchemaAttributeView {
            name: "acp_modify_class"@,
            uuid: ids.schema_attr_acp_modify_class,
            description: "The set of class values that could be asserted or added to an entry. Only applies to modify::present operations on class."@,
            multivalue: true,
            unique: false,
            phantom: false,
            index: seq![IndexType::EQUALITY],
            syntax: SyntaxType::UTF8STRING_INSENSITIVE,
        },
    )
}

/// Puts what members, groups and the system have under its name.
pub open spec fn with_membership_attributes(m: Attributes, ids: SchemaUuids) -> Attributes {
    m.insert(
        "memberof"@,
        SchemaAttributeView {
            name: "memberof"@,
            uuid: ids.schema_attr_memberof,
            description: "reverse group membership of the object"@,
            multivalue: true,
            unique: false,
            phantom: false,
            index: seq![IndexType::EQUALITY],
            syntax: SyntaxType::REFERENCE_UUID,
        },
    ).insert(
        "directmemberof"@,
        SchemaAttributeView {
            name: "directmemberof"@,
            uuid: ids.schema_attr_directmemberof,
            description: "reverse direct group membership of the object"@,
            multivalue: true,
            unique: false,
            phantom: false,
            index: seq![IndexType::EQUALITY],
            syntax: SyntaxType::REFERENCE_UUID,
        },
    ).insert(
        "member"@,
        SchemaAttributeView {
            name: "member"@,
            uuid: ids.schema_attr_member,
            description: "List of members of the group"@,
            multivalue: true,
            unique: false,
            phantom: false,
            index: seq![IndexType::EQUALITY],
            syntax: SyntaxType::REFERENCE_UUID,
        },
    ).insert(
        "version"@,
        SchemaAttributeView {
            name: "version"@,
            uuid: ids.schema_attr_version,
            description: "The systems internal migration version for provided objects"@,
            multivalue: false,
            unique: false,
            phantom: false,
            index: seq![],
            syntax: SyntaxType::UINT32,
        },
    ).insert(
        "domain"@,
        SchemaAttributeView {
            name: "domain"@,
            uuid: ids.schema_attr_domain,
            description: "A DNS Domain name entry."@,
            multivalue: true,
            unique: false,
            phantom: false,
            index: seq![IndexType::EQUALITY],
            syntax: SyntaxType::UTF8STRING_INAME,
        },
    )
}

/// Puts what is generated and never stored under its name.
pub open spec fn with_phantom_attributes(m: Attributes, ids: SchemaUuids) -> Attributes {
    m.insert(
        "claim"@,
        SchemaAttributeView {
            name: "claim"@,
            uuid: ids.schema_attr_claim,
            description: "The spn of a claim this entry holds"@,
            multivalue: true,
            unique: false,
            phantom: true,
            index: seq![],
            syntax: SyntaxType::SERVICE_PRINCIPLE_NAME,
        },
    ).insert(
        "password_import"@,
        SchemaAttributeView {
            name: "password_import"@,
            uuid: ids.schema_attr_password_import,
            description: "An imported password hash from an external system."@,
            multivalue: true,
            unique: false,
            phantom: true,
            index: seq![],
            syntax: SyntaxType::UTF8STRING,
        },
    ).insert(
        "dn"@,
        SchemaAttributeView {
            name: "dn"@,
            uuid: ids.schema_attr_dn,
            description: "An LDAP Compatible DN"@,
            multivalue: false,
            unique: false,
            phantom: true,
            index: seq![],
            syntax: SyntaxType::UTF8STRING_INSENSITIVE,
        },
    ).insert(
        "entryuuid"@,
        SchemaAttributeView {
            name: "entryuuid"@,
            uuid: ids.schema_attr_entryuuid,
            description: "An LDAP Compatible entryUUID"@,
            multivalue: false,
            unique: false,
            phantom: true,
            index: seq![],
            syntax: SyntaxType::UUID,
        },
    ).insert(
        "objectclass"@,
        SchemaAttributeView {
            name: "objectclass"@,
            uuid: ids.schema_attr_objectclass,
            description: "An LDAP Compatible objectClass"@,
            multivalue: true,
            unique: false,
            phantom: true,
            index: seq![],
            syntax: SyntaxType::UTF8STRING_INSENSITIVE,
        },
    )
}

/// The attributes that a schema starts with.
pub open spec fn core_attributes(ids: SchemaUuids) -> Attributes {
    let m = with_object_attributes(Attributes::empty(), ids);
    let m = with_definition_attributes(m, ids);
    let m = with_access_attributes(m, ids);
    let m = with_membership_attributes(m, ids);
    with_phantom_attributes(m, ids)
}

/// Puts the classes of definitions and of objects as such under their names.
pub open spec fn with_structural_classes(m: Classes, ids: SchemaUuids) -> Classes {
    m.insert(
        "attributetype"@,
        SchemaClassView {
            name: "attributetype"@,
            uuid: ids.schema_class_attributetype,
            description: "Definition of a schema attribute"@,
            systemmay: seq!["phantom"@, "index"@],
            may: seq![],
            systemmust: seq!["class"@, "attributename"@, "multivalue"@, "unique"@, "syntax"@, "description"@],
            must: seq![],
        },
    ).insert(
        "classtype"@,
        SchemaClassView {
            name: "classtype"@,
            uuid: ids.schema_class_classtype,
            description: "Definition of a schema classtype"@,
            systemmay: seq!["systemmay"@, "may"@, "systemmust"@, "must"@],
            may: seq![],
            systemmust: seq!["class"@, "classname"@, "description"@],
            must: seq![],
        },
    ).insert(
        "object"@,
        SchemaClassView {
            name: "object"@,
            uuid: ids.schema_class_object,
            description: "A system created class that all objects must contain"@,
            systemmay: seq!["description"@],
            may: seq![],
            systemmust: seq!["class"@, "uuid"@, "last_modified_cid"@],
            must: seq![],
        },
    ).insert(
        "memberof"@,
        SchemaClassView {
            name: "memberof"@,
            uuid: ids.schema_class_memberof,
            description: "Class that is dynamically added to recepients of memberof or directmemberof"@,
            systemmay: seq!["memberof"@, "directmemberof"@],
            may: seq![],
            systemmust: seq![],
            must: seq![],
        },
    ).insert(
        "extensibleobject"@,
        SchemaClassView {
            name: "extensibleobject"@,
            uuid: ids.schema_class_extensibleobject,
            description: "A class type that has green hair and turns off all rules ..."@,
            systemmay: seq![],
            may: seq![],
            systemmust: seq![],
            must: seq![],
        },
    ).insert(
        "recycled"@,
        SchemaClassView {
            name: "recycled"@,
            uuid: ids.schema_class_recycled,
            description: "An object that has been deleted, but still recoverable via the revive operation. Recycled objects are not modifiable, only revivable."@,
            systemmay: seq![],
            may: seq![],
            systemmust: seq![],
            must: seq![],
        },
    ).insert(
        "tombstone"@,
        SchemaClassView {
            name: "tombstone"@,
            uuid: ids.schema_class_tombstone,
            description: "An object that is purged from the recycle bin. This is a system internal state. Tombstones have no attributes beside UUID."@,
            systemmay: seq![],
            may: seq![],
            systemmust: seq!["class"@, "uuid"@],
            must: seq![],
        },
    )
}

/// Puts the classes of the system and of access controls under their names.
pub open spec fn with_system_classes(m: Classes, ids: SchemaUuids) -> Classes {
    m.insert(
        "system_info"@,
        SchemaClassView {
            name: "system_info"@,
            uuid: ids.schema_class_system_info,
            description: "System metadata object class"@,
            systemmay: seq![],
            may: seq![],
            systemmust: seq!["version"@],
            must: seq![],
        },
    ).insert(
        "access_control_profile"@,
        SchemaClassView {
            name: "access_control_profile"@,
            uuid: ids.schema_class_access_control_profile,
            description: "System Access Control Profile Class"@,
            systemmay: seq!["acp_enable"@, "description"@],
            may: seq![],
            systemmust: seq!["acp_receiver"@, "acp_targetscope"@, "name"@],
            must: seq![],
        },
    ).insert(
        "access_control_search"@,
        SchemaClassView {
            name: "access_control_search"@,
            uuid: ids.schema_class_access_control_search,
            description: "System Access Control Search Class"@,
            systemmay: seq![],
            may: seq![],
            systemmust: seq!["acp_search_attr"@],
            must: seq![],
        },
    ).insert(
        "access_control_delete"@,
        SchemaClassView {
            name: "access_control_delete"@,
            uuid: ids.schema_class_access_control_delete,
            description: "System Access Control DELETE Class"@,
            systemmay: seq![],
            may: seq![],
            systemmust: seq![],
            must: seq![],
        },
    ).insert(
        "access_control_modify"@,
        SchemaClassView {
            name: "access_control_modify"@,
            uuid: ids.schema_class_access_control_modify,
            description: "System Access Control Modify Class"@,
            systemmay: seq!["acp_modify_removedattr"@, "acp_modify_presentattr"@, "acp_modify_class"@],
            may: seq![],
            systemmust: seq![],
            must: seq![],
        },
    ).insert(
        "access_control_create"@,
        SchemaClassView {
            name: "access_control_create"@,
            uuid: ids.schema_class_access_control_create,
            description: "System Access Control Create Class"@,
            systemmay: seq!["acp_create_class"@, "acp_create_attr"@],
            may: seq![],
            systemmust: seq![],
            must: seq![],
        },
    ).insert(
        "system"@,
        SchemaClassView {
            name: "system"@,
            uuid: ids.schema_class_system,
            description: "A class denoting that a type is system generated and protected. It has special internal behaviour."@,
            systemmay: seq![],
            may: seq![],
            systemmust: seq![],
            must: seq![],
        },
    )
}

/// The classes that a schema starts with.
pub open spec fn core_classes(ids: SchemaUuids) -> Classes {
    with_system_classes(with_structural_classes(Classes::empty(), ids), ids)
}

fn no_index() -> (r: Vec<IndexType>)
    ensures
        r@ == Seq::<IndexType>::empty(),
{
    Vec::new()
}

fn by_equality() -> (r: Vec<IndexType>)
    ensures
        r@ == seq![IndexType::EQUALITY],
{
    let mut r: Vec<IndexType> = Vec::new();
    r.push(IndexType::EQUALITY);
    r
}

fn by_equality_and_presence() -> (r: Vec<IndexType>)
    ensures
        r@ == seq![IndexType::EQUALITY, IndexType::PRESENCE],
{
    let mut r: Vec<IndexType> = Vec::new();
    r.push(IndexType::EQUALITY);
    r.push(IndexType::PRESENCE);
    r
}

fn by_equality_and_substring() -> (r: Vec<IndexType>)
    ensures
        r@ == seq![IndexType::EQUALITY, IndexType::SUBSTRING],
{
    let mut r: Vec<IndexType> = Vec::new();
    r.push(IndexType::EQUALITY);
    r.push(IndexType::SUBSTRING);
    r
}

fn no_names() -> (r: Vec<String>)
    ensures
        texts(r@) == Seq::<Seq<char>>::empty(),
{
    let r: Vec<String> = Vec::new();
    assert(texts(r@) =~= Seq::<Seq<char>>::empty());
    r
}

/// Appends a name to a list.
fn add_name(names: &mut Vec<String>, name: &str)
    ensures
        texts(final(names)@) == texts(old(names)@).push(name@),
{
    let ghost before = texts(names@);
    names.push(name.to_owned());
    assert(texts(names@) =~= before.push(name@));
}

fn add_object_attributes(table: &mut HashMap<String, SchemaAttribute>, ids: &SchemaUuids)
    ensures
        attributes_in(*final(table)) == with_object_attributes(attributes_in(*old(table)), *ids),
{
    insert_attribute(
        table,
        "class".to_owned(),
        SchemaAttribute {
            name: "class".to_owned(),
            uuid: ids.schema_attr_class,
            description: "The set of classes defining an object".to_owned(),
            multivalue: true,
            unique: false,
            phantom: false,
            index: by_equality_and_presence(),
            syntax: SyntaxType::UTF8STRING_INSENSITIVE,
        },
    );
    insert_attribute(
        table,
        "uuid".to_owned(),
        SchemaAttribute {
            name: "uuid".to_owned(),
            uuid: ids.schema_attr_uuid,
            description: "The universal unique id of the object".to_owned(),
            multivalue: false,
            unique: false,
            phantom: false,
            index: by_equality_and_presence(),
            syntax: SyntaxType::UUID,
        },
    );
    insert_attribute(
        table,
        "last_modified_cid".to_owned(),
        SchemaAttribute {
            name: "last_modified_cid".to_owned(),
            uuid: ids.schema_attr_last_mod_cid,
            description: "The cid of the last change to this object".to_owned(),
            multivalue: false,
            unique: false,
            phantom: false,
            index: no_index(),
            syntax: SyntaxType::CID,
        },
    );
    insert_attribute(
        table,
        "name".to_owned(),
        SchemaAttribute {
            name: "name".to_owned(),
            uuid: ids.schema_attr_name,
            description: "The shortform name of an object".to_owned(),
            multivalue: false,
            unique: true,
            phantom: false,
            index: by_equality_and_presence(),
            syntax: SyntaxType::UTF8STRING_INAME,
        },
    );
    insert_attribute(
        table,
        "spn".to_owned(),
        SchemaAttribute {
            name: "spn".to_owned(),
            uuid: ids.schema_attr_spn,
            description: "The service principle name of an object, unique across all domain trusts".to_owned(),
            multivalue: false,
            unique: true,
            phantom: false,
            index: by_equality(),
            syntax: SyntaxType::SERVICE_PRINCIPLE_NAME,
        },
    );
}

fn add_definition_attributes(table: &mut HashMap<String, SchemaAttribute>, ids: &SchemaUuids)
    ensures
        attributes_in(*final(table)) == with_definition_attributes(attributes_in(*old(table)), *ids),
{
    insert_attribute(
        table,
        "attributename".to_owned(),
        SchemaAttribute {
            name: "attributename".to_owned(),
            uuid: ids.schema_attr_attributename,
            description: "The name of a schema attribute".to_owned(),
            multivalue: false,
            unique: true,
            phantom: false,
            index: by_equality(),
            syntax: SyntaxType::UTF8STRING_INSENSITIVE,
        },
    );
    insert_attribute(
        table,
        "classname".to_owned(),
        SchemaAttribute {
            name: "classname".to_owned(),
            uuid: ids.schema_attr_classname,
            description: "The name of a schema class".to_owned(),
            multivalue: false,
            unique: true,
            phantom: false,
            index: by_equality(),
            syntax: SyntaxType::UTF8STRING_INSENSITIVE,
        },
    );
    insert_attribute(
        table,
        "description".to_owned(),
        SchemaAttribute {
            name: "description".to_owned(),
            uuid: ids.schema_attr_description,
            description: "A description of an attribute, object or class".to_owned(),
            multivalue: true,
            unique: false,
            phantom: false,
            index: no_index(),
            syntax: SyntaxType::UTF8STRING,
        },
    );
    insert_attribute(
        table,
        "multivalue".to_owned(),
        SchemaAttribute {
            name: "multivalue".to_owned(),
            uuid: ids.schema_attr_multivalue,
            description: "If true, this attribute is able to store multiple values rather than just a single value.".to_owned(),
            multivalue: false,
            unique: false,
            phantom: false,
            index: no_index(),
            syntax: SyntaxType::BOOLEAN,
        },
    );
    insert_attribute(
        table,
        "phantom".to_owned(),
        SchemaAttribute {
            name: "phantom".to_owned(),
            uuid: ids.schema_attr_phantom,
            description: "If true, this attribute must NOT be present in any may/must sets of a class as. This represents generated attributes.".to_owned(),
            multivalue: false,
            unique: false,
            phantom: false,
            index: no_index(),
            syntax: SyntaxType::BOOLEAN,
        },
    );
    insert_attribute(
        table,
        "unique".to_owned(),
        SchemaAttribute {
            name: "unique".to_owned(),
            uuid: ids.schema_attr_unique,
            description: "If true, this attribute must store a unique value through out the database.".to_owned(),
            multivalue: false,
            unique: false,
            phantom: false,
            index: no_index(),
            syntax: SyntaxType::BOOLEAN,
        },
    );
    insert_attribute(
        table,
        "index".to_owned(),
        SchemaAttribute {
            name: "index".to_owned(),
            uuid: ids.schema_attr_index,
            description: "Describe the indexes to apply to instances of this attribute.".to_owned(),
            multivalue: true,
            unique: false,
            phantom: false,
            index: no_index(),
            syntax: SyntaxType::INDEX_ID,
        },
    );
    insert_attribute(
        table,
        "syntax".to_owned(),
        SchemaAttribute {
            name: "syntax".to_owned(),
            uuid: ids.schema_attr_syntax,
            description: "Describe the syntax of this attribute. This affects indexing and sorting.".to_owned(),
            multivalue: false,
            unique: false,
            phantom: false,
            index: by_equality(),
            syntax: SyntaxType::SYNTAX_ID,
        },
    );
    insert_attribute(
        table,
        "systemmay".to_owned(),
        SchemaAttribute {
            name: "systemmay".to_owned(),
            uuid: ids.schema_attr_systemmay,
            description: "A list of system provided optional attributes this class can store.".to_owned(),
            multivalue: true,
            unique: false,
            phantom: false,
            index: no_index(),
            syntax: SyntaxType::UTF8STRING_INSENSITIVE,
        },
    );
    insert_attribute(
        table,
        "may".to_owned(),
        SchemaAttribute {
            name: "may".to_owned(),
            uuid: ids.schema_attr_may,
            description: "A user modifiable list of optional attributes this class can store.".to_owned(),
            multivalue: true,
            unique: false,
            phantom: false,
            index: no_index(),
            syntax: SyntaxType::UTF8STRING_INSENSITIVE,
        },
    );
    insert_attribute(
        table,
        "systemmust".to_owned(),
        SchemaAttribute {
            name: "systemmust".to_owned(),
            uuid: ids.schema_attr_systemmust,
            description: "A list of system provided required attributes this class must store.".to_owned(),
            multivalue: true,
            unique: false,
            phantom: false,
            index: no_index(),
            syntax: SyntaxType::UTF8STRING_INSENSITIVE,
        },
    );
    insert_attribute(
        table,
        "must".to_owned(),
        SchemaAttribute {
            name: "must".to_owned(),
            uuid: ids.schema_attr_must,
            description: "A user modifiable list of required attributes this class must store.".to_owned(),
            multivalue: true,
            unique: false,
            phantom: false,
            index: no_index(),
            syntax: SyntaxType::UTF8STRING_INSENSITIVE,
        },
    );
}

fn add_access_attributes(table: &mut HashMap<String, SchemaAttribute>, ids: &SchemaUuids)
    ensures
        attributes_in(*final(table)) == with_access_attributes(attributes_in(*old(table)), *ids),
{
    insert_attribute(
        table,
        "acp_enable".to_owned(),
        SchemaAttribute {
            name: "acp_enable".to_owned(),
            uuid: ids.schema_attr_acp_enable,
            description: "A flag to determine if this ACP is active for application. True is enabled, and enforce. False is checked but not enforced.".to_owned(),
            multivalue: false,
            unique: false,
            phantom: false,
            index: by_equality(),
            syntax: SyntaxType::BOOLEAN,
        },
    );
    insert_attribute(
        table,
        "acp_receiver".to_owned(),
        SchemaAttribute {
            name: "acp_receiver".to_owned(),
            uuid: ids.schema_attr_acp_receiver,
            description: "Who the ACP applies to, constraining or allowing operations.".to_owned(),
            multivalue: false,
            unique: false,
            phantom: false,
            index: by_equality_and_substring(),
            syntax: SyntaxType::JSON_FILTER,
        },
    );
    insert_attribute(
        table,
        "acp_targetscope".to_owned(),
        SchemaAttribute {
            name: "acp_targetscope".to_owned(),
            uuid: ids.schema_attr_acp_targetscope,
            description: "The effective targets of the ACP, IE what will be acted upon.".to_owned(),
            multivalue: false,
            unique: false,
            phantom: false,
            index: by_equality_and_substring(),
            syntax: SyntaxType::JSON_FILTER,
        },
    );
    insert_attribute(
        table,
        "acp_search_attr".to_owned(),
        SchemaAttribute {
            name: "acp_search_attr".to_owned(),
            uuid: ids.schema_attr_acp_search_attr,
            description: "The attributes that may be viewed or searched by the reciever on targetscope.".to_owned(),
            multivalue: true,
            unique: false,
            phantom: false,
            index: by_equality(),
            syntax: SyntaxType::UTF8STRING_INSENSITIVE,
        },
    );
    insert_attribute(
        table,
        "acp_create_class".to_owned(),
        SchemaAttribute {
            name: "acp_create_class".to_owned(),
            uuid: ids.schema_attr_acp_create_class,
            description: "The set of classes that can be created on a new entry.".to_owned(),
            multivalue: true,
            unique: false,
            phantom: false,
            index: by_equality(),
            syntax: SyntaxType::UTF8STRING_INSENSITIVE,
        },
    );
    insert_attribute(
        table,
        "acp_create_attr".to_owned(),
        SchemaAttribute {
            name: "acp_create_attr".to_owned(),
            uuid: ids.schema_attr_acp_create_attr,
            description: "The set of attribute types that can be created on an entry.".to_owned(),
            multivalue: true,
            unique: false,
            phantom: false,
            index: by_equality(),
            syntax: SyntaxType::UTF8STRING_INSENSITIVE,
        },
    );
    insert_attribute(
        table,
        "acp_modify_removedattr".to_owned(),
        SchemaAttribute {
            name: "acp_modify_removedattr".to_owned(),
            uuid: ids.schema_attr_acp_modify_removedattr,
            description: "The set of attribute types that could be removed or purged in a modification.".to_owned(),
            multivalue: true,
            unique: false,
            phantom: false,
            index: by_equality(),
            syntax: SyntaxType::UTF8STRING_INSENSITIVE,
        },
    );
    insert_attribute(
        table,
        "acp_modify_presentattr".to_owned(),
        SchemaAttribute {
            name: "acp_modify_presentattr".to_owned(),
            uuid: ids.schema_attr_acp_modify_presentattr,
            description: "The set of attribute types that could be added or asserted in a modification.".to_owned(),
            multivalue: true,
            unique: false,
            phantom: false,
            index: by_equality(),
            syntax: SyntaxType::UTF8STRING_INSENSITIVE,
        },
    );
    insert_attribute(
        table,
        "acp_modify_class".to_owned(),
        SchemaAttribute {
            name: "acp_modify_class".to_owned(),
            uuid: ids.schema_attr_acp_modify_class,
            description: "The set of class values that could be asserted or added to an entry. Only applies to modify::present operations on class.".to_owned(),
            multivalue: true,
            unique: false,
            phantom: false,
            index: by_equality(),
            syntax: SyntaxType::UTF8STRING_INSENSITIVE,
        },
    );
}

fn add_membership_attributes(table: &mut HashMap<String, SchemaAttribute>, ids: &SchemaUuids)
    ensures
        attributes_in(*final(table)) == with_membership_attributes(attributes_in(*old(table)), *ids),
{
    insert_attribute(
        table,
        "memberof".to_owned(),
        SchemaAttribute {
            name: "memberof".to_owned(),
            uuid: ids.schema_attr_memberof,
            description: "reverse group membership of the object".to_owned(),
            multivalue: true,
            unique: false,
            phantom: false,
            index: by_equality(),
            syntax: SyntaxType::REFERENCE_UUID,
        },
    );
    insert_attribute(
        table,
        "directmemberof".to_owned(),
        SchemaAttribute {
            name: "directmemberof".to_owned(),
            uuid: ids.schema_attr_directmemberof,
            description: "reverse direct group membership of the object".to_owned(),
            multivalue: true,
            unique: false,
            phantom: false,
            index: by_equality(),
            syntax: SyntaxType::REFERENCE_UUID,
        },
    );
    insert_attribute(
        table,
        "member".to_owned(),
        SchemaAttribute {
            name: "member".to_owned(),
            uuid: ids.schema_attr_member,
            description: "List of members of the group".to_owned(),
            multivalue: true,
            unique: false,
            phantom: false,
            index: by_equality(),
            syntax: SyntaxType::REFERENCE_UUID,
        },
    );
    insert_attribute(
        table,
        "version".to_owned(),
        SchemaAttribute {
            name: "version".to_owned(),
            uuid: ids.schema_attr_version,
            description: "The systems internal migration version for provided objects".to_owned(),
            multivalue: false,
            unique: false,
            phantom: false,
            index: no_index(),
            syntax: SyntaxType::UINT32,
        },
    );
    insert_attribute(
        table,
        "domain".to_owned(),
        SchemaAttribute {
            name: "domain".to_owned(),
            uuid: ids.schema_attr_domain,
            description: "A DNS Domain name entry.".to_owned(),
            multivalue: true,
            unique: false,
            phantom: false,
            index: by_equality(),
            syntax: SyntaxType::UTF8STRING_INAME,
        },
    );
}

fn add_phantom_attributes(table: &mut HashMap<String, SchemaAttribute>, ids: &SchemaUuids)
    ensures
        attributes_in(*final(table)) == with_phantom_attributes(attributes_in(*old(table)), *ids),
{
    insert_attribute(
        table,
        "claim".to_owned(),
        SchemaAttribute {
            name: "claim".to_owned(),
            uuid: ids.schema_attr_claim,
            description: "The spn of a claim this entry holds".to_owned(),
            multivalue: true,
            unique: false,
            phantom: true,
            index: no_index(),
            syntax: SyntaxType::SERVICE_PRINCIPLE_NAME,
        },
    );
    insert_attribute(
        table,
        "password_import".to_owned(),
        SchemaAttribute {
            name: "password_import".to_owned(),
            uuid: ids.schema_attr_password_import,
            description: "An imported password hash from an external system.".to_owned(),
            multivalue: true,
            unique: false,
            phantom: true,
            index: no_index(),
            syntax: SyntaxType::UTF8STRING,
        },
    );
    insert_attribute(
        table,
        "dn".to_owned(),
        SchemaAttribute {
            name: "dn".to_owned(),
            uuid: ids.schema_attr_dn,
            description: "An LDAP Compatible DN".to_owned(),
            multivalue: false,
            unique: false,
            phantom: true,
            index: no_index(),
            syntax: SyntaxType::UTF8STRING_INSENSITIVE,
        },
    );
    insert_attribute(
        table,
        "entryuuid".to_owned(),
        SchemaAttribute {
            name: "entryuuid".to_owned(),
            uuid: ids.schema_attr_entryuuid,
            description: "An LDAP Compatible entryUUID".to_owned(),
            multivalue: false,
            unique: false,
            phantom: true,
            index: no_index(),
            syntax: SyntaxType::UUID,
        },
    );
    insert_attribute(
        table,
        "objectclass".to_owned(),
        SchemaAttribute {
            name: "objectclass".to_owned(),
            uuid: ids.schema_attr_objectclass,
            description: "An LDAP Compatible objectClass".to_owned(),
            multivalue: true,
            unique: false,
            phantom: true,
            index: no_index(),
            syntax: SyntaxType::UTF8STRING_INSENSITIVE,
        },
    );
}

fn add_structural_classes(table: &mut HashMap<String, SchemaClass>, ids: &SchemaUuids)
    ensures
        classes_in(*final(table)) == with_structural_classes(classes_in(*old(table)), *ids),
{
    let mut systemmay = no_names();
    add_name(&mut systemmay, "phantom");
    add_name(&mut systemmay, "index");
    assert(texts(systemmay@) =~= seq!["phantom"@, "index"@]);
    let mut systemmust = no_names();
    add_name(&mut systemmust, "class");
    add_name(&mut systemmust, "attributename");
    add_name(&mut systemmust, "multivalue");
    add_name(&mut systemmust, "unique");
    add_name(&mut systemmust, "syntax");
    add_name(&mut systemmust, "description");
    assert(texts(systemmust@) =~= seq!["class"@, "attributename"@, "multivalue"@, "unique"@, "syntax"@, "description"@]);
    insert_class(
        table,
        "attributetype".to_owned(),
        SchemaClass {
            name: "attributetype".to_owned(),
            uuid: ids.schema_class_attributetype,
            description: "Definition of a schema attribute".to_owned(),
            systemmay,
            may: no_names(),
            systemmust,
            must: no_names(),
        },
    );
    let mut systemmay = no_names();
    add_name(&mut systemmay, "systemmay");
    add_name(&mut systemmay, "may");
    add_name(&mut systemmay, "systemmust");
    add_name(&mut systemmay, "must");
    assert(texts(systemmay@) =~= seq!["systemmay"@, "may"@, "systemmust"@, "must"@]);
    let mut systemmust = no_names();
    add_name(&mut systemmust, "class");
    add_name(&mut systemmust, "classname");
    add_name(&mut systemmust, "description");
    assert(texts(systemmust@) =~= seq!["class"@, "classname"@, "description"@]);
    insert_class(
        table,
        "classtype".to_owned(),
        SchemaClass {
            name: "classtype".to_owned(),
            uuid: ids.schema_class_classtype,
            description: "Definition of a schema classtype".to_owned(),
            systemmay,
            may: no_names(),
            systemmust,
            must: no_names(),
        },
    );
    let mut systemmay = no_names();
    add_name(&mut systemmay, "description");
    let mut systemmust = no_names();
    add_name(&mut systemmust, "class");
    add_name(&mut systemmust, "uuid");
    add_name(&mut systemmust, "last_modified_cid");
    assert(texts(systemmust@) =~= seq!["class"@, "uuid"@, "last_modified_cid"@]);
    insert_class(
        table,
        "object".to_owned(),
        SchemaClass {
            name: "object".to_owned(),
            uuid: ids.schema_class_object,
            description: "A system created class that all objects must contain".to_owned(),
            systemmay,
            may: no_names(),
            systemmust,
            must: no_names(),
        },
    );
    let mut systemmay = no_names();
    add_name(&mut systemmay, "memberof");
    add_name(&mut systemmay, "directmemberof");
    assert(texts(systemmay@) =~= seq!["memberof"@, "directmemberof"@]);
    insert_class(
        table,
        "memberof".to_owned(),
        SchemaClass {
            name: "memberof".to_owned(),
            uuid: ids.schema_class_memberof,
            description: "Class that is dynamically added to recepients of memberof or directmemberof".to_owned(),
            systemmay,
            may: no_names(),
            systemmust: no_names(),
            must: no_names(),
        },
    );
    insert_class(
        table,
        "extensibleobject".to_owned(),
        SchemaClass {
            name: "extensibleobject".to_owned(),
            uuid: ids.schema_class_extensibleobject,
            description: "A class type that has green hair and turns off all rules ...".to_owned(),
            systemmay: no_names(),
            may: no_names(),
            systemmust: no_names(),
            must: no_names(),
        },
    );
    insert_class(
        table,
        "recycled".to_owned(),
        SchemaClass {
            name: "recycled".to_owned(),
            uuid: ids.schema_class_recycled,
            description: "An object that has been deleted, but still recoverable via the revive operation. Recycled objects are not modifiable, only revivable.".to_owned(),
            systemmay: no_names(),
            may: no_names(),
            systemmust: no_names(),
            must: no_names(),
        },
    );
    let mut systemmust = no_names();
    add_name(&mut systemmust, "class");
    add_name(&mut systemmust, "uuid");
    assert(texts(systemmust@) =~= seq!["class"@, "uuid"@]);
    insert_class(
        table,
        "tombstone".to_owned(),
        SchemaClass {
            name: "tombstone".to_owned(),
            uuid: ids.schema_class_tombstone,
            description: "An object that is purged from the recycle bin. This is a system internal state. Tombstones have no attributes beside UUID.".to_owned(),
            systemmay: no_names(),
            may: no_names(),
            systemmust,
            must: no_names(),
        },
    );
}

fn add_system_classes(table: &mut HashMap<String, SchemaClass>, ids: &SchemaUuids)
    ensures
        classes_in(*final(table)) == with_system_classes(classes_in(*old(table)), *ids),
{
    let mut systemmust = no_names();
    add_name(&mut systemmust, "version");
    insert_class(
        table,
        "system_info".to_owned(),
        SchemaClass {
            name: "system_info".to_owned(),
            uuid: ids.schema_class_system_info,
            description: "System metadata object class".to_owned(),
            systemmay: no_names(),
            may: no_names(),
            systemmust,
            must: no_names(),
        },
    );
    let mut systemmay = no_names();
    add_name(&mut systemmay, "acp_enable");
    add_name(&mut systemmay, "description");
    assert(texts(systemmay@) =~= seq!["acp_enable"@, "description"@]);
    let mut systemmust = no_names();
    add_name(&mut systemmust, "acp_receiver");
    add_name(&mut systemmust, "acp_targetscope");
    add_name(&mut systemmust, "name");
    assert(texts(systemmust@) =~= seq!["acp_receiver"@, "acp_targetscope"@, "name"@]);
    insert_class(
        table,
        "access_control_profile".to_owned(),
        SchemaClass {
            name: "access_control_profile".to_owned(),
            uuid: ids.schema_class_access_control_profile,
            description: "System Access Control Profile Class".to_owned(),
            systemmay,
            may: no_names(),
            systemmust,
            must: no_names(),
        },
    );
    let mut systemmust = no_names();
    add_name(&mut systemmust, "acp_search_attr");
    insert_class(
        table,
        "access_control_search".to_owned(),
        SchemaClass {
            name: "access_control_search".to_owned(),
            uuid: ids.schema_class_access_control_search,
            description: "System Access Control Search Class".to_owned(),
            systemmay: no_names(),
            may: no_names(),
            systemmust,
            must: no_names(),
        },
    );
    insert_class(
        table,
        "access_control_delete".to_owned(),
        SchemaClass {
            name: "access_control_delete".to_owned(),
            uuid: ids.schema_class_access_control_delete,
            description: "System Access Control DELETE Class".to_owned(),
            systemmay: no_names(),
            may: no_names(),
            systemmust: no_names(),
            must: no_names(),
        },
    );
    let mut systemmay = no_names();
    add_name(&mut systemmay, "acp_modify_removedattr");
    add_name(&mut systemmay, "acp_modify_presentattr");
    add_name(&mut systemmay, "acp_modify_class");
    assert(texts(systemmay@) =~= seq!["acp_modify_removedattr"@, "acp_modify_presentattr"@, "acp_modify_class"@]);
    insert_class(
        table,
        "access_control_modify".to_owned(),
        SchemaClass {
            name: "access_control_modify".to_owned(),
            uuid: ids.schema_class_access_control_modify,
            description: "System Access Control Modify Class".to_owned(),
            systemmay,
            may: no_names(),
            systemmust: no_names(),
            must: no_names(),
        },
    );
    let mut systemmay = no_names();
    add_name(&mut systemmay, "acp_create_class");
    add_name(&mut systemmay, "acp_create_attr");
    assert(texts(systemmay@) =~= seq!["acp_create_class"@, "acp_create_attr"@]);
    insert_class(
        table,
        "access_control_create".to_owned(),
        SchemaClass {
            name: "access_control_create".to_owned(),
            uuid: ids.schema_class_access_control_create,
            description: "System Access Control Create Class".to_owned(),
            systemmay,
            may: no_names(),
            systemmust: no_names(),
            must: no_names(),
        },
    );
    insert_class(
        table,
        "system".to_owned(),
        SchemaClass {
            name: "system".to_owned(),
            uuid: ids.schema_class_system,
            description: "A class denoting that a type is system generated and protected. It has special internal behaviour.".to_owned(),
            systemmay: no_names(),
            may: no_names(),
            systemmust: no_names(),
            must: no_names(),
        },
    );
}

/// Fills an empty table with the attributes that a schema starts with.
pub(crate) fn add_core_attributes(table: &mut HashMap<String, SchemaAttribute>, ids: &SchemaUuids)
    requires
        attributes_in(*old(table)) == Attributes::empty(),
    ensures
        attributes_in(*final(table)) == core_attributes(*ids),
{
    add_object_attributes(table, ids);
    add_definition_attributes(table, ids);
    add_access_attributes(table, ids);
    add_membership_attributes(table, ids);
    add_phantom_attributes(table, ids);
}

/// Fills an empty table with the classes that a schema starts with.
pub(crate) fn add_core_classes(table: &mut HashMap<String, SchemaClass>, ids: &SchemaUuids)
    requires
        classes_in(*old(table)) == Classes::empty(),
    ensures
        classes_in(*final(table)) == core_classes(*ids),
{
    add_structural_classes(table, ids);
    add_system_classes(table, ids);
}

/// Whether a name is that of an attribute that is never stored.
spec fn is_phantom_name(n: Seq<char>) -> bool {
    ||| n == "claim"@
    ||| n == "password_import"@
    ||| n == "dn"@
    ||| n == "entryuuid"@
    ||| n == "objectclass"@
}

/// Whether the phantoms among some attributes have the names of phantoms.
spec fn only_known_phantoms(m: Attributes) -> bool {
    forall|n: Seq<char>| #[trigger] m.contains_key(n) && m[n].phantom ==> is_phantom_name(n)
}

proof fn lemma_known_phantoms(ids: SchemaUuids)
    ensures
        only_known_phantoms(core_attributes(ids)),
{
    let m = Attributes::empty();
    assert(only_known_phantoms(m));
    let m = with_object_attributes(m, ids);
    assert(only_known_phantoms(m));
    let m = with_definition_attributes(m, ids);
    assert(only_known_phantoms(m));
    let m = with_access_attributes(m, ids);
    assert(only_known_phantoms(m));
    let m = with_membership_attributes(m, ids);
    assert(only_known_phantoms(m));
    let m = with_phantom_attributes(m, ids);
    assert(only_known_phantoms(m));
}

/// Whether a name is that of an attribute that a class of the core names.
spec fn is_core_name(n: Seq<char>) -> bool {
    ||| n == "phantom"@
    ||| n == "index"@
    ||| n == "class"@
    ||| n == "attributename"@
    ||| n == "multivalue"@
    ||| n == "unique"@
    ||| n == "syntax"@
    ||| n == "description"@
    ||| n == "systemmay"@
    ||| n == "may"@
    ||| n == "systemmust"@
    ||| n == "must"@
    ||| n == "classname"@
    ||| n == "uuid"@
    ||| n == "last_modified_cid"@
    ||| n == "memberof"@
    ||| n == "directmemberof"@
    ||| n == "version"@
    ||| n == "acp_enable"@
    ||| n == "acp_receiver"@
    ||| n == "acp_targetscope"@
    ||| n == "name"@
    ||| n == "acp_search_attr"@
    ||| n == "acp_modify_removedattr"@
    ||| n == "acp_modify_presentattr"@
    ||| n == "acp_modify_class"@
    ||| n == "acp_create_class"@
    ||| n == "acp_create_attr"@
}

proof fn lemma_core_names_are_there(ids: SchemaUuids, n: Seq<char>)
    requires
        is_core_name(n),
    ensures
        core_attributes(ids).contains_key(n),
{
}

proof fn lemma_core_names_are_no_phantoms(n: Seq<char>)
    requires
        is_core_name(n),
    ensures
        !is_phantom_name(n),
{
    reveal_strlit("claim");
    assert("claim"@.len() == 5);
    reveal_strlit("password_import");
    assert("password_import"@.len() == 15);
    reveal_strlit("dn");
    assert("dn"@.len() == 2);
    reveal_strlit("entryuuid");
    assert("entryuuid"@.len() == 9);
    reveal_strlit("objectclass");
    assert("objectclass"@.len() == 11);
    reveal_strlit("phantom");
    assert("phantom"@.len() == 7);
    reveal_strlit("index");
    assert("index"@.len() == 5);
    reveal_strlit("class");
    assert("class"@.len() == 5);
    reveal_strlit("attributename");
    assert("attributename"@.len() == 13);
    reveal_strlit("multivalue");
    assert("multivalue"@.len() == 10);
    reveal_strlit("unique");
    assert("unique"@.len() == 6);
    reveal_strlit("syntax");
    assert("syntax"@.len() == 6);
    reveal_strlit("description");
    assert("description"@.len() == 11);
    reveal_strlit("systemmay");
    assert("systemmay"@.len() == 9);
    reveal_strlit("may");
    assert("may"@.len() == 3);
    reveal_strlit("systemmust");
    assert("systemmust"@.len() == 10);
    reveal_strlit("must");
    assert("must"@.len() == 4);
    reveal_strlit("classname");
    assert("classname"@.len() == 9);
    reveal_strlit("uuid");
    assert("uuid"@.len() == 4);
    reveal_strlit("last_modified_cid");
    assert("last_modified_cid"@.len() == 17);
    reveal_strlit("memberof");
    assert("memberof"@.len() == 8);
    reveal_strlit("directmemberof");
    assert("directmemberof"@.len() == 14);
    reveal_strlit("version");
    assert("version"@.len() == 7);
    reveal_strlit("acp_enable");
    assert("acp_enable"@.len() == 10);
    reveal_strlit("acp_receiver");
    assert("acp_receiver"@.len() == 12);
    reveal_strlit("acp_targetscope");
    assert("acp_targetscope"@.len() == 15);
    reveal_strlit("name");
    assert("name"@.len() == 4);
    reveal_strlit("acp_search_attr");
    assert("acp_search_attr"@.len() == 15);
    reveal_strlit("acp_modify_removedattr");
    assert("acp_modify_removedattr"@.len() == 22);
    reveal_strlit("acp_modify_presentattr");
    assert("acp_modify_presentattr"@.len() == 22);
    reveal_strlit("acp_modify_class");
    assert("acp_modify_class"@.len() == 16);
    reveal_strlit("acp_create_class");
    assert("acp_create_class"@.len() == 16);
    reveal_strlit("acp_create_attr");
    assert("acp_create_attr"@.len() == 15);
    assert("index"@[0] != "claim"@[0]);
    assert("class"@[3] != "claim"@[3]);
    assert("description"@[0] != "objectclass"@[0]);
    assert("systemmay"@[0] != "entryuuid"@[0]);
    assert("classname"@[0] != "entryuuid"@[0]);
    assert("acp_targetscope"@[0] != "password_import"@[0]);
    assert("acp_search_attr"@[0] != "password_import"@[0]);
    assert("acp_create_attr"@[0] != "password_import"@[0]);
}

/// Whether the classes name only attributes of the core.
spec fn name_only_core(m: Classes) -> bool {
    forall|c: Seq<char>, i: int|
        #![trigger m[c].named()[i]]
        m.contains_key(c) && 0 <= i < m[c].named().len() ==> is_core_name(m[c].named()[i])
}

proof fn lemma_core_classes_name_only_core(ids: SchemaUuids)
    ensures
        name_only_core(core_classes(ids)),
{
    let m = with_structural_classes(Classes::empty(), ids);
    assert(name_only_core(m));
    assert(name_only_core(with_system_classes(m, ids)));
}

/// Whether each of some attributes stands under its own name.
spec fn attributes_under_own_names(m: Attributes) -> bool {
    forall|n: Seq<char>| #[trigger] m.contains_key(n) ==> m[n].name == n
}

/// Whether each of some classes stands under its own name.
spec fn classes_under_own_names(m: Classes) -> bool {
    forall|n: Seq<char>| #[trigger] m.contains_key(n) ==> m[n].name == n
}

/// The definitions that a schema starts with stand under their own names.
pub proof fn law_core_is_well_formed(ids: SchemaUuids)
    ensures
        forall|n: Seq<char>| #[trigger]
            core_attributes(ids).contains_key(n) ==> core_attributes(ids)[n].name == n,
        forall|n: Seq<char>| #[trigger]
            core_classes(ids).contains_key(n) ==> core_classes(ids)[n].name == n,
{
    let m = Attributes::empty();
    assert(attributes_under_own_names(m));
    let m = with_object_attributes(m, ids);
    assert(attributes_under_own_names(m));
    let m = with_definition_attributes(m, ids);
    assert(attributes_under_own_names(m));
    let m = with_access_attributes(m, ids);
    assert(attributes_under_own_names(m));
    let m = with_membership_attributes(m, ids);
    assert(attributes_under_own_names(m));
    let m = with_phantom_attributes(m, ids);
    assert(attributes_under_own_names(m));
    let c = with_structural_classes(Classes::empty(), ids);
    assert(classes_under_own_names(c));
    assert(classes_under_own_names(with_system_classes(c, ids)));
}

/// The definitions that a schema starts with are consistent.
pub proof fn law_core_is_consistent(ids: SchemaUuids)
    ensures
        consistent(core_classes(ids), core_attributes(ids)),
{
    let classes = core_classes(ids);
    let attributes = core_attributes(ids);
    lemma_known_phantoms(ids);
    lemma_core_classes_name_only_core(ids);
    assert forall|c: Seq<char>, a: Seq<char>|
        #![trigger classes[c].named().contains(a)]
        classes.contains_key(c) && classes[c].named().contains(a) implies attributes.contains_key(a)
        && !attributes[a].phantom by {
        let i = choose|i: int| 0 <= i < classes[c].named().len() && classes[c].named()[i] == a;
        assert(is_core_name(classes[c].named()[i]));
        lemma_core_names_are_there(ids, a);
        lemma_core_names_are_no_phantoms(a);
    }
}

/// Whether a name is in the form in which names of attributes are normalised.
pub open spec fn is_normal(n: Seq<char>) -> bool {
    is_ascii_text(n) && lower(n) == n
}

/// Whether each of some attributes stands under a normalised name.
spec fn attributes_under_normal_names(m: Attributes) -> bool {
    forall|n: Seq<char>| #[trigger] m.contains_key(n) ==> is_normal(n)
}

proof fn lemma_object_names_are_normal(m: Attributes, ids: SchemaUuids)
    requires
        attributes_under_normal_names(m),
    ensures
        attributes_under_normal_names(with_object_attributes(m, ids)),
{
    assert(is_normal("class"@)) by {
        reveal_strlit("class");
        assert(lower("class"@) =~= "class"@);
    }
    assert(is_normal("uuid"@)) by {
        reveal_strlit("uuid");
        assert(lower("uuid"@) =~= "uuid"@);
    }
    assert(is_normal("last_modified_cid"@)) by {
        reveal_strlit("last_modified_cid");
        assert(lower("last_modified_cid"@) =~= "last_modified_cid"@);
    }
    assert(is_normal("name"@)) by {
        reveal_strlit("name");
        assert(lower("name"@) =~= "name"@);
    }
    assert(is_normal("spn"@)) by {
        reveal_strlit("spn");
        assert(lower("spn"@) =~= "spn"@);
    }
}

proof fn lemma_definition_names_are_normal(m: Attributes, ids: SchemaUuids)
    requires
        attributes_under_normal_names(m),
    ensures
        attributes_under_normal_names(with_definition_attributes(m, ids)),
{
    assert(is_normal("attributename"@)) by {
        reveal_strlit("attributename");
        assert(lower("attributename"@) =~= "attributename"@);
    }
    assert(is_normal("classname"@)) by {
        reveal_strlit("classname");
        assert(lower("classname"@) =~= "classname"@);
    }
    assert(is_normal("description"@)) by {
        reveal_strlit("description");
        assert(lower("description"@) =~= "description"@);
    }
    assert(is_normal("multivalue"@)) by {
        reveal_strlit("multivalue");
        assert(lower("multivalue"@) =~= "multivalue"@);
    }
    assert(is_normal("phantom"@)) by {
        reveal_strlit("phantom");
        assert(lower("phantom"@) =~= "phantom"@);
    }
    assert(is_normal("unique"@)) by {
        reveal_strlit("unique");
        assert(lower("unique"@) =~= "unique"@);
    }
    assert(is_normal("index"@)) by {
        reveal_strlit("index");
        assert(lower("index"@) =~= "index"@);
    }
    assert(is_normal("syntax"@)) by {
        reveal_strlit("syntax");
        assert(lower("syntax"@) =~= "syntax"@);
    }
    assert(is_normal("systemmay"@)) by {
        reveal_strlit("systemmay");
        assert(lower("systemmay"@) =~= "systemmay"@);
    }
    assert(is_normal("may"@)) by {
        reveal_strlit("may");
        assert(lower("may"@) =~= "may"@);
    }
    assert(is_normal("systemmust"@)) by {
        reveal_strlit("systemmust");
        assert(lower("systemmust"@) =~= "systemmust"@);
    }
    assert(is_normal("must"@)) by {
        reveal_strlit("must");
        assert(lower("must"@) =~= "must"@);
    }
}

proof fn lemma_access_names_are_normal(m: Attributes, ids: SchemaUuids)
    requires
        attributes_under_normal_names(m),
    ensures
        attributes_under_normal_names(with_access_attributes(m, ids)),
{
    assert(is_normal("acp_enable"@)) by {
        reveal_strlit("acp_enable");
        assert(lower("acp_enable"@) =~= "acp_enable"@);
    }
    assert(is_normal("acp_receiver"@)) by {
        reveal_strlit("acp_receiver");
        assert(lower("acp_receiver"@) =~= "acp_receiver"@);
    }
    assert(is_normal("acp_targetscope"@)) by {
        reveal_strlit("acp_targetscope");
        assert(lower("acp_targetscope"@) =~= "acp_targetscope"@);
    }
    assert(is_normal("acp_search_attr"@)) by {
        reveal_strlit("acp_search_attr");
        assert(lower("acp_search_attr"@) =~= "acp_search_attr"@);
    }
    assert(is_normal("acp_create_class"@)) by {
        reveal_strlit("acp_create_class");
        assert(lower("acp_create_class"@) =~= "acp_create_class"@);
    }
    assert(is_normal("acp_create_attr"@)) by {
        reveal_strlit("acp_create_attr");
        assert(lower("acp_create_attr"@) =~= "acp_create_attr"@);
    }
    assert(is_normal("acp_modify_removedattr"@)) by {
        reveal_strlit("acp_modify_removedattr");
        assert(lower("acp_modify_removedattr"@) =~= "acp_modify_removedattr"@);
    }
    assert(is_normal("acp_modify_presentattr"@)) by {
        reveal_strlit("acp_modify_presentattr");
        assert(lower("acp_modify_presentattr"@) =~= "acp_modify_presentattr"@);
    }
    assert(is_normal("acp_modify_class"@)) by {
        reveal_strlit("acp_modify_class");
        assert(lower("acp_modify_class"@) =~= "acp_modify_class"@);
    }
}

proof fn lemma_membership_names_are_normal(m: Attributes, ids: SchemaUuids)
    requires
        attributes_under_normal_names(m),
    ensures
        attributes_under_normal_names(with_membership_attributes(m, ids)),
{
    assert(is_normal("memberof"@)) by {
        reveal_strlit("memberof");
        assert(lower("memberof"@) =~= "memberof"@);
    }
    assert(is_normal("directmemberof"@)) by {
        reveal_strlit("directmemberof");
        assert(lower("directmemberof"@) =~= "directmemberof"@);
    }
    assert(is_normal("member"@)) by {
        reveal_strlit("member");
        assert(lower("member"@) =~= "member"@);
    }
    assert(is_normal("version"@)) by {
        reveal_strlit("version");
        assert(lower("version"@) =~= "version"@);
    }
    assert(is_normal("domain"@)) by {
        reveal_strlit("domain");
        assert(lower("domain"@) =~= "domain"@);
    }
}

proof fn lemma_phantom_names_are_normal(m: Attributes, ids: SchemaUuids)
    requires
        attributes_under_normal_names(m),
    ensures
        attributes_under_normal_names(with_phantom_attributes(m, ids)),
{
    assert(is_normal("claim"@)) by {
        reveal_strlit("claim");
        assert(lower("claim"@) =~= "claim"@);
    }
    assert(is_normal("password_import"@)) by {
        reveal_strlit("password_import");
        assert(lower("password_import"@) =~= "password_import"@);
    }
    assert(is_normal("dn"@)) by {
        reveal_strlit("dn");
        assert(lower("dn"@) =~= "dn"@);
    }
    assert(is_normal("entryuuid"@)) by {
        reveal_strlit("entryuuid");
        assert(lower("entryuuid"@) =~= "entryuuid"@);
    }
    assert(is_normal("objectclass"@)) by {
        reveal_strlit("objectclass");
        assert(lower("objectclass"@) =~= "objectclass"@);
    }
}

/// The names of the attributes that a schema starts with are normalised, so
/// normalising one of them gives it back.
pub proof fn law_core_names_are_normal(ids: SchemaUuids, n: Seq<char>)
    requires
        core_attributes(ids).contains_key(n),
    ensures
        is_normal(n),
{
    let m = Attributes::empty();
    lemma_object_names_are_normal(m, ids);
    let m = with_object_attributes(m, ids);
    lemma_definition_names_are_normal(m, ids);
    let m = with_definition_attributes(m, ids);
    lemma_access_names_are_normal(m, ids);
    let m = with_access_attributes(m, ids);
    lemma_membership_names_are_normal(m, ids);
    let m = with_membership_attributes(m, ids);
    lemma_phantom_names_are_normal(m, ids);
    let m = with_phantom_attributes(m, ids);
}

/// Whether each of some classes stands under a normalised name.
spec fn classes_under_normal_names(m: Classes) -> bool {
    forall|n: Seq<char>| #[trigger] m.contains_key(n) ==> is_normal(n)
}

proof fn lemma_structural_names_are_normal(m: Classes, ids: SchemaUuids)
    requires
        classes_under_normal_names(m),
    ensures
        classes_under_normal_names(with_structural_classes(m, ids)),
{
    assert(is_normal("attributetype"@)) by {
        reveal_strlit("attributetype");
        assert(lower("attributetype"@) =~= "attributetype"@);
    }
    assert(is_normal("classtype"@)) by {
        reveal_strlit("classtype");
        assert(lower("classtype"@) =~= "classtype"@);
    }
    assert(is_normal("object"@)) by {
        reveal_strlit("object");
        assert(lower("object"@) =~= "object"@);
    }
    assert(is_normal("memberof"@)) by {
        reveal_strlit("memberof");
        assert(lower("memberof"@) =~= "memberof"@);
    }
    assert(is_normal("extensibleobject"@)) by {
        reveal_strlit("extensibleobject");
        assert(lower("extensibleobject"@) =~= "extensibleobject"@);
    }
    assert(is_normal("recycled"@)) by {
        reveal_strlit("recycled");
        assert(lower("recycled"@) =~= "recycled"@);
    }
    assert(is_normal("tombstone"@)) by {
        reveal_strlit("tombstone");
        assert(lower("tombstone"@) =~= "tombstone"@);
    }
}

proof fn lemma_system_names_are_normal(m: Classes, ids: SchemaUuids)
    requires
        classes_under_normal_names(m),
    ensures
        classes_under_normal_names(with_system_classes(m, ids)),
{
    assert(is_normal("system_info"@)) by {
        reveal_strlit("system_info");
        assert(lower("system_info"@) =~= "system_info"@);
    }
    assert(is_normal("access_control_profile"@)) by {
        reveal_strlit("access_control_profile");
        assert(lower("access_control_profile"@) =~= "access_control_profile"@);
    }
    assert(is_normal("access_control_search"@)) by {
        reveal_strlit("access_control_search");
        assert(lower("access_control_search"@) =~= "access_control_search"@);
    }
    assert(is_normal("access_control_delete"@)) by {
        reveal_strlit("access_control_delete");
        assert(lower("access_control_delete"@) =~= "access_control_delete"@);
    }
    assert(is_normal("access_control_modify"@)) by {
        reveal_strlit("access_control_modify");
        assert(lower("access_control_modify"@) =~= "access_control_modify"@);
    }
    assert(is_normal("access_control_create"@)) by {
        reveal_strlit("access_control_create");
        assert(lower("access_control_create"@) =~= "access_control_create"@);
    }
    assert(is_normal("system"@)) by {
        reveal_strlit("system");
        assert(lower("system"@) =~= "system"@);
    }
}

/// The names of the classes that a schema starts with are normalised.
pub proof fn law_core_class_names_are_normal(ids: SchemaUuids, n: Seq<char>)
    requires
        core_classes(ids).contains_key(n),
    ensures
        is_normal(n),
{
    lemma_structural_names_are_normal(Classes::empty(), ids);
    lemma_system_names_are_normal(with_structural_classes(Classes::empty(), ids), ids);
}

/// Whether the ways to index each of some attributes stand in ascending order.
spec fn all_indexes_ascend(m: Attributes) -> bool {
    forall|n: Seq<char>| #[trigger] m.contains_key(n) ==> indexes_ascend(m[n].index)
}

/// Every attribute that a schema starts with can be stored as an entry: the entry
/// that defines it, once it is committed under the identifier of the attribute, is
/// read back as that attribute.
pub proof fn law_core_attributes_are_read_back(ids: SchemaUuids, n: Seq<char>)
    requires
        core_attributes(ids).contains_key(n),
    ensures
        ({
            let a = core_attributes(ids)[n];
            attribute_of(SealedEntryView { uuid: a.uuid, attrs: attribute_entry(a) }) == Ok::<
                SchemaAttributeView,
                Seq<char>,
            >(a)
        }),
{
    let m = Attributes::empty();
    assert(all_indexes_ascend(m));
    let m = with_object_attributes(m, ids);
    assert(all_indexes_ascend(m));
    let m = with_definition_attributes(m, ids);
    assert(all_indexes_ascend(m));
    let m = with_access_attributes(m, ids);
    assert(all_indexes_ascend(m));
    let m = with_membership_attributes(m, ids);
    assert(all_indexes_ascend(m));
    let m = with_phantom_attributes(m, ids);
    assert(all_indexes_ascend(m));
    law_core_is_well_formed(ids);
    law_core_names_are_normal(ids, n);
    law_attribute_round_trip(core_attributes(ids)[n]);
}

/// Names of attributes of the core stay as they are in lower case.
proof fn lemma_core_names_stay(ids: SchemaUuids, names: Seq<Seq<char>>)
    requires
        forall|i: int| 0 <= i < names.len() ==> is_core_name(#[trigger] names[i]),
    ensures
        lowered(names) == names,
{
    assert forall|i: int| 0 <= i < names.len() implies lower(#[trigger] names[i]) == names[i] by {
        lemma_core_names_are_there(ids, names[i]);
        law_core_names_are_normal(ids, names[i]);
    }
    assert(lowered(names) =~= names);
}

/// Every class that a schema starts with can be stored as an entry: the entry that
/// defines it, once it is committed under the identifier of the class, is read back
/// as that class, with the names of each list in ascending order.
pub proof fn law_core_classes_are_read_back(ids: SchemaUuids, n: Seq<char>)
    requires
        core_classes(ids).contains_key(n),
    ensures
        ({
            let c = core_classes(ids)[n];
            class_of(SealedEntryView { uuid: c.uuid, attrs: class_entry(c) }) matches Ok(d) && {
                &&& d.name == c.name
                &&& d.uuid == c.uuid
                &&& d.description == c.description
                &&& lists_in_order(d.systemmay, c.systemmay)
                &&& lists_in_order(d.may, c.may)
                &&& lists_in_order(d.systemmust, c.systemmust)
                &&& lists_in_order(d.must, c.must)
            }
        }),
{
    let classes = core_classes(ids);
    let c = classes[n];
    law_core_is_well_formed(ids);
    law_core_class_names_are_normal(ids, n);
    lemma_core_classes_name_only_core(ids);
    let (x, y, z) = (c.systemmay.len(), c.may.len(), c.systemmust.len());
    assert forall|i: int| 0 <= i < c.systemmay.len() implies is_core_name(
        #[trigger] c.systemmay[i],
    ) by {
        assert(is_core_name(classes[n].named()[i]));
    }
    assert forall|i: int| 0 <= i < c.may.len() implies is_core_name(#[trigger] c.may[i]) by {
        assert(is_core_name(classes[n].named()[x + i]));
    }
    assert forall|i: int| 0 <= i < c.systemmust.len() implies is_core_name(
        #[trigger] c.systemmust[i],
    ) by {
        assert(is_core_name(classes[n].named()[x + y + i]));
    }
    assert forall|i: int| 0 <= i < c.must.len() implies is_core_name(#[trigger] c.must[i]) by {
        assert(is_core_name(classes[n].named()[x + y + z + i]));
    }
    lemma_core_names_stay(ids, c.systemmay);
    lemma_core_names_stay(ids, c.may);
    lemma_core_names_stay(ids, c.systemmust);
    lemma_core_names_stay(ids, c.must);
    law_class_round_trip(c);
}

} // verus!
