//! What the definitions are that a schema starts with.
use crate::bootstrap::SchemaUuids;
use crate::error::OperationError;
use crate::schema::Schema;
use crate::value::{IndexType, SyntaxType};
use vstd::prelude::*;

verus! {

use crate::attribute::SchemaAttributeView;
use crate::bootstrap::{
    core_attributes, core_classes, with_access_attributes, with_definition_attributes,
    with_membership_attributes, with_object_attributes, with_phantom_attributes,
    with_structural_classes, with_system_classes,
};
use crate::class::SchemaClassView;
use crate::definition::indexes_ascend;
use crate::tables::{Attributes, Classes};

/// What tells the names of the attributes apart.
proof fn lemma_attribute_names()
    ensures
        "class"@.len() == 5,
        "uuid"@.len() == 4,
        "last_modified_cid"@.len() == 17,
        "name"@.len() == 4,
        "spn"@.len() == 3,
        "attributename"@.len() == 13,
        "classname"@.len() == 9,
        "description"@.len() == 11,
        "multivalue"@.len() == 10,
        "phantom"@.len() == 7,
        "unique"@.len() == 6,
        "index"@.len() == 5,
        "syntax"@.len() == 6,
        "systemmay"@.len() == 9,
        "may"@.len() == 3,
        "systemmust"@.len() == 10,
        "must"@.len() == 4,
        "acp_enable"@.len() == 10,
        "acp_receiver"@.len() == 12,
        "acp_targetscope"@.len() == 15,
        "acp_search_attr"@.len() == 15,
        "acp_create_class"@.len() == 16,
        "acp_create_attr"@.len() == 15,
        "acp_modify_removedattr"@.len() == 22,
        "acp_modify_presentattr"@.len() == 22,
        "acp_modify_class"@.len() == 16,
        "memberof"@.len() == 8,
        "directmemberof"@.len() == 14,
        "member"@.len() == 6,
        "version"@.len() == 7,
        "domain"@.len() == 6,
        "claim"@.len() == 5,
        "password_import"@.len() == 15,
        "dn"@.len() == 2,
        "entryuuid"@.len() == 9,
        "objectclass"@.len() == 11,
        "class"@[3] == 's',
        "index"@[3] == 'e',
        "claim"@[3] == 'i',
        "uuid"@[0] == 'u',
        "name"@[0] == 'n',
        "must"@[0] == 'm',
        "spn"@[0] == 's',
        "may"@[0] == 'm',
        "classname"@[0] == 'c',
        "systemmay"@[0] == 's',
        "entryuuid"@[0] == 'e',
        "description"@[0] == 'd',
        "objectclass"@[0] == 'o',
        "multivalue"@[0] == 'm',
        "systemmust"@[0] == 's',
        "acp_enable"@[0] == 'a',
        "phantom"@[0] == 'p',
        "version"@[0] == 'v',
        "unique"@[0] == 'u',
        "syntax"@[0] == 's',
        "member"@[0] == 'm',
        "domain"@[0] == 'd',
        "acp_targetscope"@[4] == 't',
        "acp_search_attr"@[4] == 's',
        "acp_create_attr"@[4] == 'c',
        "password_import"@[4] == 'w',
        "acp_create_class"@[4] == 'c',
        "acp_modify_class"@[4] == 'm',
        "acp_modify_removedattr"@[11] == 'r',
        "acp_modify_presentattr"@[11] == 'p',
{
    reveal_strlit("class");
    reveal_strlit("uuid");
    reveal_strlit("last_modified_cid");
    reveal_strlit("name");
    reveal_strlit("spn");
    reveal_strlit("attributename");
    reveal_strlit("classname");
    reveal_strlit("description");
    reveal_strlit("multivalue");
    reveal_strlit("phantom");
    reveal_strlit("unique");
    reveal_strlit("index");
    reveal_strlit("syntax");
    reveal_strlit("systemmay");
    reveal_strlit("may");
    reveal_strlit("systemmust");
    reveal_strlit("must");
    reveal_strlit("acp_enable");
    reveal_strlit("acp_receiver");
    reveal_strlit("acp_targetscope");
    reveal_strlit("acp_search_attr");
    reveal_strlit("acp_create_class");
    reveal_strlit("acp_create_attr");
    reveal_strlit("acp_modify_removedattr");
    reveal_strlit("acp_modify_presentattr");
    reveal_strlit("acp_modify_class");
    reveal_strlit("memberof");
    reveal_strlit("directmemberof");
    reveal_strlit("member");
    reveal_strlit("version");
    reveal_strlit("domain");
    reveal_strlit("claim");
    reveal_strlit("password_import");
    reveal_strlit("dn");
    reveal_strlit("entryuuid");
    reveal_strlit("objectclass");
}

/// What tells the names of the classes apart.
proof fn lemma_class_names()
    ensures
        "attributetype"@.len() == 13,
        "classtype"@.len() == 9,
        "object"@.len() == 6,
        "memberof"@.len() == 8,
        "extensibleobject"@.len() == 16,
        "recycled"@.len() == 8,
        "tombstone"@.len() == 9,
        "system_info"@.len() == 11,
        "access_control_profile"@.len() == 22,
        "access_control_search"@.len() == 21,
        "access_control_delete"@.len() == 21,
        "access_control_modify"@.len() == 21,
        "access_control_create"@.len() == 21,
        "system"@.len() == 6,
        "classtype"@[0] == 'c',
        "tombstone"@[0] == 't',
        "object"@[0] == 'o',
        "system"@[0] == 's',
        "memberof"@[0] == 'm',
        "recycled"@[0] == 'r',
        "access_control_search"@[15] == 's',
        "access_control_delete"@[15] == 'd',
        "access_control_modify"@[15] == 'm',
        "access_control_create"@[15] == 'c',
{
    reveal_strlit("attributetype");
    reveal_strlit("classtype");
    reveal_strlit("object");
    reveal_strlit("memberof");
    reveal_strlit("extensibleobject");
    reveal_strlit("recycled");
    reveal_strlit("tombstone");
    reveal_strlit("system_info");
    reveal_strlit("access_control_profile");
    reveal_strlit("access_control_search");
    reveal_strlit("access_control_delete");
    reveal_strlit("access_control_modify");
    reveal_strlit("access_control_create");
    reveal_strlit("system");
}

/// What is told of the rules of an attribute of the core.
spec fn rules_are_told(n: Seq<char>, a: SchemaAttributeView) -> bool {
    &&& a.name == n
    &&& indexes_ascend(a.index)
    &&& a.multivalue <==> {
        ||| n == "class"@
        ||| n == "description"@
        ||| n == "index"@
        ||| n == "systemmay"@
        ||| n == "may"@
        ||| n == "systemmust"@
        ||| n == "must"@
        ||| n == "acp_search_attr"@
        ||| n == "acp_create_class"@
        ||| n == "acp_create_attr"@
        ||| n == "acp_modify_removedattr"@
        ||| n == "acp_modify_presentattr"@
        ||| n == "acp_modify_class"@
        ||| n == "memberof"@
        ||| n == "directmemberof"@
        ||| n == "member"@
        ||| n == "domain"@
        ||| n == "claim"@
        ||| n == "password_import"@
        ||| n == "objectclass"@
    }
    &&& a.unique <==> {
        ||| n == "name"@
        ||| n == "spn"@
        ||| n == "attributename"@
        ||| n == "classname"@
    }
    &&& a.phantom <==> {
        ||| n == "claim"@
        ||| n == "password_import"@
        ||| n == "dn"@
        ||| n == "entryuuid"@
        ||| n == "objectclass"@
    }
    &&& a.index.contains(IndexType::EQUALITY) <==> {
        ||| n == "class"@
        ||| n == "uuid"@
        ||| n == "name"@
        ||| n == "spn"@
        ||| n == "attributename"@
        ||| n == "classname"@
        ||| n == "syntax"@
        ||| n == "acp_enable"@
        ||| n == "acp_receiver"@
        ||| n == "acp_targetscope"@
        ||| n == "acp_search_attr"@
        ||| n == "acp_create_class"@
        ||| n == "acp_create_attr"@
        ||| n == "acp_modify_removedattr"@
        ||| n == "acp_modify_presentattr"@
        ||| n == "acp_modify_class"@
        ||| n == "memberof"@
        ||| n == "directmemberof"@
        ||| n == "member"@
        ||| n == "domain"@
    }
    &&& a.index.contains(IndexType::PRESENCE) <==> {
        ||| n == "class"@
        ||| n == "uuid"@
        ||| n == "name"@
    }
    &&& a.index.contains(IndexType::SUBSTRING) <==> {
        ||| n == "acp_receiver"@
        ||| n == "acp_targetscope"@
    }
    &&& (a.syntax == SyntaxType::UTF8STRING_INSENSITIVE) <==> {
        ||| n == "class"@
        ||| n == "attributename"@
        ||| n == "classname"@
        ||| n == "systemmay"@
        ||| n == "may"@
        ||| n == "systemmust"@
        ||| n == "must"@
        ||| n == "acp_search_attr"@
        ||| n == "acp_create_class"@
        ||| n == "acp_create_attr"@
        ||| n == "acp_modify_removedattr"@
        ||| n == "acp_modify_presentattr"@
        ||| n == "acp_modify_class"@
        ||| n == "dn"@
        ||| n == "objectclass"@
    }
    &&& (a.syntax == SyntaxType::UUID) <==> {
        ||| n == "uuid"@
        ||| n == "entryuuid"@
    }
    &&& (a.syntax == SyntaxType::CID) <==> {
        ||| n == "last_modified_cid"@
    }
    &&& (a.syntax == SyntaxType::UTF8STRING_INAME) <==> {
        ||| n == "name"@
        ||| n == "domain"@
    }
    &&& (a.syntax == SyntaxType::SERVICE_PRINCIPLE_NAME) <==> {
        ||| n == "spn"@
        ||| n == "claim"@
    }
    &&& (a.syntax == SyntaxType::UTF8STRING) <==> {
        ||| n == "description"@
        ||| n == "password_import"@
    }
    &&& (a.syntax == SyntaxType::BOOLEAN) <==> {
        ||| n == "multivalue"@
        ||| n == "phantom"@
        ||| n == "unique"@
        ||| n == "acp_enable"@
    }
    &&& (a.syntax == SyntaxType::INDEX_ID) <==> {
        ||| n == "index"@
    }
    &&& (a.syntax == SyntaxType::SYNTAX_ID) <==> {
        ||| n == "syntax"@
    }
    &&& (a.syntax == SyntaxType::JSON_FILTER) <==> {
        ||| n == "acp_receiver"@
        ||| n == "acp_targetscope"@
    }
    &&& (a.syntax == SyntaxType::REFERENCE_UUID) <==> {
        ||| n == "memberof"@
        ||| n == "directmemberof"@
        ||| n == "member"@
    }
    &&& (a.syntax == SyntaxType::UINT32) <==> {
        ||| n == "version"@
    }
}

/// Whether it is told truly of some attributes.
spec fn all_rules_are_told(m: Attributes) -> bool {
    forall|n: Seq<char>| #[trigger] m.contains_key(n) ==> rules_are_told(n, m[n])
}

proof fn lemma_object_rules(m: Attributes, ids: SchemaUuids)
    requires
        all_rules_are_told(m),
    ensures
        all_rules_are_told(with_object_attributes(m, ids)),
{
    lemma_attribute_names();
    let all = with_object_attributes(m, ids);
    assert(rules_are_told("class"@, all["class"@])) by {
        let index = all["class"@].index;
        assert(index.len() == 2);
        assert(index[0] == IndexType::EQUALITY);
        assert(index[1] == IndexType::PRESENCE);
    }
    assert(rules_are_told("uuid"@, all["uuid"@])) by {
        let index = all["uuid"@].index;
        assert(index.len() == 2);
        assert(index[0] == IndexType::EQUALITY);
        assert(index[1] == IndexType::PRESENCE);
    }
    assert(rules_are_told("last_modified_cid"@, all["last_modified_cid"@])) by {
        let index = all["last_modified_cid"@].index;
        assert(index.len() == 0);
    }
    assert(rules_are_told("name"@, all["name"@])) by {
        let index = all["name"@].index;
        assert(index.len() == 2);
        assert(index[0] == IndexType::EQUALITY);
        assert(index[1] == IndexType::PRESENCE);
    }
    assert(rules_are_told("spn"@, all["spn"@])) by {
        let index = all["spn"@].index;
        assert(index.len() == 1);
        assert(index[0] == IndexType::EQUALITY);
    }
}

proof fn lemma_definition_rules(m: Attributes, ids: SchemaUuids)
    requires
        all_rules_are_told(m),
    ensures
        all_rules_are_told(with_definition_attributes(m, ids)),
{
    lemma_attribute_names();
    let all = with_definition_attributes(m, ids);
    assert(rules_are_told("attributename"@, all["attributename"@])) by {
        let index = all["attributename"@].index;
        assert(index.len() == 1);
        assert(index[0] == IndexType::EQUALITY);
    }
    assert(rules_are_told("classname"@, all["classname"@])) by {
        let index = all["classname"@].index;
        assert(index.len() == 1);
        assert(index[0] == IndexType::EQUALITY);
    }
    assert(rules_are_told("description"@, all["description"@])) by {
        let index = all["description"@].index;
        assert(index.len() == 0);
    }
    assert(rules_are_told("multivalue"@, all["multivalue"@])) by {
        let index = all["multivalue"@].index;
        assert(index.len() == 0);
    }
    assert(rules_are_told("phantom"@, all["phantom"@])) by {
        let index = all["phantom"@].index;
        assert(index.len() == 0);
    }
    assert(rules_are_told("unique"@, all["unique"@])) by {
        let index = all["unique"@].index;
        assert(index.len() == 0);
    }
    assert(rules_are_told("index"@, all["index"@])) by {
        let index = all["index"@].index;
        assert(index.len() == 0);
    }
    assert(rules_are_told("syntax"@, all["syntax"@])) by {
        let index = all["syntax"@].index;
        assert(index.len() == 1);
        assert(index[0] == IndexType::EQUALITY);
    }
    assert(rules_are_told("systemmay"@, all["systemmay"@])) by {
        let index = all["systemmay"@].index;
        assert(index.len() == 0);
    }
    assert(rules_are_told("may"@, all["may"@])) by {
        let index = all["may"@].index;
        assert(index.len() == 0);
    }
    assert(rules_are_told("systemmust"@, all["systemmust"@])) by {
        let index = all["systemmust"@].index;
        assert(index.len() == 0);
    }
    assert(rules_are_told("must"@, all["must"@])) by {
        let index = all["must"@].index;
        assert(index.len() == 0);
    }
}

proof fn lemma_access_rules(m: Attributes, ids: SchemaUuids)
    requires
        all_rules_are_told(m),
    ensures
        all_rules_are_told(with_access_attributes(m, ids)),
{
    lemma_attribute_names();
    let all = with_access_attributes(m, ids);
    assert(rules_are_told("acp_enable"@, all["acp_enable"@])) by {
        let index = all["acp_enable"@].index;
        assert(index.len() == 1);
        assert(index[0] == IndexType::EQUALITY);
    }
    assert(rules_are_told("acp_receiver"@, all["acp_receiver"@])) by {
        let index = all["acp_receiver"@].index;
        assert(index.len() == 2);
        assert(index[0] == IndexType::EQUALITY);
        assert(index[1] == IndexType::SUBSTRING);
    }
    assert(rules_are_told("acp_targetscope"@, all["acp_targetscope"@])) by {
        let index = all["acp_targetscope"@].index;
        assert(index.len() == 2);
        assert(index[0] == IndexType::EQUALITY);
        assert(index[1] == IndexType::SUBSTRING);
    }
    assert(rules_are_told("acp_search_attr"@, all["acp_search_attr"@])) by {
        let index = all["acp_search_attr"@].index;
        assert(index.len() == 1);
        assert(index[0] == IndexType::EQUALITY);
    }
    assert(rules_are_told("acp_create_class"@, all["acp_create_class"@])) by {
        let index = all["acp_create_class"@].index;
        assert(index.len() == 1);
        assert(index[0] == IndexType::EQUALITY);
    }
    assert(rules_are_told("acp_create_attr"@, all["acp_create_attr"@])) by {
        let index = all["acp_create_attr"@].index;
        assert(index.len() == 1);
        assert(index[0] == IndexType::EQUALITY);
    }
    assert(rules_are_told("acp_modify_removedattr"@, all["acp_modify_removedattr"@])) by {
        let index = all["acp_modify_removedattr"@].index;
        assert(index.len() == 1);
        assert(index[0] == IndexType::EQUALITY);
    }
    assert(rules_are_told("acp_modify_presentattr"@, all["acp_modify_presentattr"@])) by {
        let index = all["acp_modify_presentattr"@].index;
        assert(index.len() == 1);
        assert(index[0] == IndexType::EQUALITY);
    }
    assert(rules_are_told("acp_modify_class"@, all["acp_modify_class"@])) by {
        let index = all["acp_modify_class"@].index;
        assert(index.len() == 1);
        assert(index[0] == IndexType::EQUALITY);
    }
}

proof fn lemma_membership_rules(m: Attributes, ids: SchemaUuids)
    requires
        all_rules_are_told(m),
    ensures
        all_rules_are_told(with_membership_attributes(m, ids)),
{
    lemma_attribute_names();
    let all = with_membership_attributes(m, ids);
    assert(rules_are_told("memberof"@, all["memberof"@])) by {
        let index = all["memberof"@].index;
        assert(index.len() == 1);
        assert(index[0] == IndexType::EQUALITY);
    }
    assert(rules_are_told("directmemberof"@, all["directmemberof"@])) by {
        let index = all["directmemberof"@].index;
        assert(index.len() == 1);
        assert(index[0] == IndexType::EQUALITY);
    }
    assert(rules_are_told("member"@, all["member"@])) by {
        let index = all["member"@].index;
        assert(index.len() == 1);
        assert(index[0] == IndexType::EQUALITY);
    }
    assert(rules_are_told("version"@, all["version"@])) by {
        let index = all["version"@].index;
        assert(index.len() == 0);
    }
    assert(rules_are_told("domain"@, all["domain"@])) by {
        let index = all["domain"@].index;
        assert(index.len() == 1);
        assert(index[0] == IndexType::EQUALITY);
    }
}

proof fn lemma_phantom_rules(m: Attributes, ids: SchemaUuids)
    requires
        all_rules_are_told(m),
    ensures
        all_rules_are_told(with_phantom_attributes(m, ids)),
{
    lemma_attribute_names();
    let all = with_phantom_attributes(m, ids);
    assert(rules_are_told("claim"@, all["claim"@])) by {
        let index = all["claim"@].index;
        assert(index.len() == 0);
    }
    assert(rules_are_told("password_import"@, all["password_import"@])) by {
        let index = all["password_import"@].index;
        assert(index.len() == 0);
    }
    assert(rules_are_told("dn"@, all["dn"@])) by {
        let index = all["dn"@].index;
        assert(index.len() == 0);
    }
    assert(rules_are_told("entryuuid"@, all["entryuuid"@])) by {
        let index = all["entryuuid"@].index;
        assert(index.len() == 0);
    }
    assert(rules_are_told("objectclass"@, all["objectclass"@])) by {
        let index = all["objectclass"@].index;
        assert(index.len() == 0);
    }
}

/// The rules of the attributes that a schema starts with: under which names they
/// stand; which take several values; of which the values are unique; which are
/// phantoms; which are indexed in which way; and which hold which kind of data. Each
/// stands under its own name, with its ways to index in ascending order.
pub proof fn law_core_attribute_rules(ids: SchemaUuids, n: Seq<char>)
    ensures
        core_attributes(ids).contains_key(n) <==> {
            ||| n == "class"@
            ||| n == "uuid"@
            ||| n == "last_modified_cid"@
            ||| n == "name"@
            ||| n == "spn"@
            ||| n == "attributename"@
            ||| n == "classname"@
            ||| n == "description"@
            ||| n == "multivalue"@
            ||| n == "phantom"@
            ||| n == "unique"@
            ||| n == "index"@
            ||| n == "syntax"@
            ||| n == "systemmay"@
            ||| n == "may"@
            ||| n == "systemmust"@
            ||| n == "must"@
            ||| n == "acp_enable"@
            ||| n == "acp_receiver"@
            ||| n == "acp_targetscope"@
            ||| n == "acp_search_attr"@
            ||| n == "acp_create_class"@
            ||| n == "acp_create_attr"@
            ||| n == "acp_modify_removedattr"@
            ||| n == "acp_modify_presentattr"@
            ||| n == "acp_modify_class"@
            ||| n == "memberof"@
            ||| n == "directmemberof"@
            ||| n == "member"@
            ||| n == "version"@
            ||| n == "domain"@
            ||| n == "claim"@
            ||| n == "password_import"@
            ||| n == "dn"@
            ||| n == "entryuuid"@
            ||| n == "objectclass"@
        },
        core_attributes(ids).contains_key(n) ==> {
            let a = core_attributes(ids)[n];
            &&& a.name == n
            &&& indexes_ascend(a.index)
            &&& a.multivalue <==> {
                ||| n == "class"@
                ||| n == "description"@
                ||| n == "index"@
                ||| n == "systemmay"@
                ||| n == "may"@
                ||| n == "systemmust"@
                ||| n == "must"@
                ||| n == "acp_search_attr"@
                ||| n == "acp_create_class"@
                ||| n == "acp_create_attr"@
                ||| n == "acp_modify_removedattr"@
                ||| n == "acp_modify_presentattr"@
                ||| n == "acp_modify_class"@
                ||| n == "memberof"@
                ||| n == "directmemberof"@
                ||| n == "member"@
                ||| n == "domain"@
                ||| n == "claim"@
                ||| n == "password_import"@
                ||| n == "objectclass"@
            }
            &&& a.unique <==> {
                ||| n == "name"@
                ||| n == "spn"@
                ||| n == "attributename"@
                ||| n == "classname"@
            }
            &&& a.phantom <==> {
                ||| n == "claim"@
                ||| n == "password_import"@
                ||| n == "dn"@
                ||| n == "entryuuid"@
                ||| n == "objectclass"@
            }
            &&& a.index.contains(IndexType::EQUALITY) <==> {
                ||| n == "class"@
                ||| n == "uuid"@
                ||| n == "name"@
                ||| n == "spn"@
                ||| n == "attributename"@
                ||| n == "classname"@
                ||| n == "syntax"@
                ||| n == "acp_enable"@
                ||| n == "acp_receiver"@
                ||| n == "acp_targetscope"@
                ||| n == "acp_search_attr"@
                ||| n == "acp_create_class"@
                ||| n == "acp_create_attr"@
                ||| n == "acp_modify_removedattr"@
                ||| n == "acp_modify_presentattr"@
                ||| n == "acp_modify_class"@
                ||| n == "memberof"@
                ||| n == "directmemberof"@
                ||| n == "member"@
                ||| n == "domain"@
            }
            &&& a.index.contains(IndexType::PRESENCE) <==> {
                ||| n == "class"@
                ||| n == "uuid"@
                ||| n == "name"@
            }
            &&& a.index.contains(IndexType::SUBSTRING) <==> {
                ||| n == "acp_receiver"@
                ||| n == "acp_targetscope"@
            }
            &&& (a.syntax == SyntaxType::UTF8STRING_INSENSITIVE) <==> {
                ||| n == "class"@
                ||| n == "attributename"@
                ||| n == "classname"@
                ||| n == "systemmay"@
                ||| n == "may"@
                ||| n == "systemmust"@
                ||| n == "must"@
                ||| n == "acp_search_attr"@
                ||| n == "acp_create_class"@
                ||| n == "acp_create_attr"@
                ||| n == "acp_modify_removedattr"@
                ||| n == "acp_modify_presentattr"@
                ||| n == "acp_modify_class"@
                ||| n == "dn"@
                ||| n == "objectclass"@
            }
            &&& (a.syntax == SyntaxType::UUID) <==> {
                ||| n == "uuid"@
                ||| n == "entryuuid"@
            }
            &&& (a.syntax == SyntaxType::CID) <==> {
                ||| n == "last_modified_cid"@
            }
            &&& (a.syntax == SyntaxType::UTF8STRING_INAME) <==> {
                ||| n == "name"@
                ||| n == "domain"@
            }
            &&& (a.syntax == SyntaxType::SERVICE_PRINCIPLE_NAME) <==> {
                ||| n == "spn"@
                ||| n == "claim"@
            }
            &&& (a.syntax == SyntaxType::UTF8STRING) <==> {
                ||| n == "description"@
                ||| n == "password_import"@
            }
            &&& (a.syntax == SyntaxType::BOOLEAN) <==> {
                ||| n == "multivalue"@
                ||| n == "phantom"@
                ||| n == "unique"@
                ||| n == "acp_enable"@
            }
            &&& (a.syntax == SyntaxType::INDEX_ID) <==> {
                ||| n == "index"@
            }
            &&& (a.syntax == SyntaxType::SYNTAX_ID) <==> {
                ||| n == "syntax"@
            }
            &&& (a.syntax == SyntaxType::JSON_FILTER) <==> {
                ||| n == "acp_receiver"@
                ||| n == "acp_targetscope"@
            }
            &&& (a.syntax == SyntaxType::REFERENCE_UUID) <==> {
                ||| n == "memberof"@
                ||| n == "directmemberof"@
                ||| n == "member"@
            }
            &&& (a.syntax == SyntaxType::UINT32) <==> {
                ||| n == "version"@
            }
        },
{
    let m = Attributes::empty();
    lemma_object_rules(m, ids);
    let m = with_object_attributes(m, ids);
    lemma_definition_rules(m, ids);
    let m = with_definition_attributes(m, ids);
    lemma_access_rules(m, ids);
    let m = with_access_attributes(m, ids);
    lemma_membership_rules(m, ids);
    let m = with_membership_attributes(m, ids);
    lemma_phantom_rules(m, ids);
}

/// What is told of the identifier and the description of an attribute of the core.
spec fn origin_is_told(ids: SchemaUuids, n: Seq<char>, a: SchemaAttributeView) -> bool {
    &&& n == "class"@ ==> a.uuid == ids.schema_attr_class && a.description
        == "The set of classes defining an object"@
    &&& n == "uuid"@ ==> a.uuid == ids.schema_attr_uuid && a.description
        == "The universal unique id of the object"@
    &&& n == "last_modified_cid"@ ==> a.uuid == ids.schema_attr_last_mod_cid && a.description
        == "The cid of the last change to this object"@
    &&& n == "name"@ ==> a.uuid == ids.schema_attr_name && a.description
        == "The shortform name of an object"@
    &&& n == "spn"@ ==> a.uuid == ids.schema_attr_spn && a.description
        == "The service principle name of an object, unique across all domain trusts"@
    &&& n == "attributename"@ ==> a.uuid == ids.schema_attr_attributename && a.description
        == "The name of a schema attribute"@
    &&& n == "classname"@ ==> a.uuid == ids.schema_attr_classname && a.description
        == "The name of a schema class"@
    &&& n == "description"@ ==> a.uuid == ids.schema_attr_description && a.description
        == "A description of an attribute, object or class"@
    &&& n == "multivalue"@ ==> a.uuid == ids.schema_attr_multivalue && a.description
        == "If true, this attribute is able to store multiple values rather than just a single value."@
    &&& n == "phantom"@ ==> a.uuid == ids.schema_attr_phantom && a.description
        == "If true, this attribute must NOT be present in any may/must sets of a class as. This represents generated attributes."@
    &&& n == "unique"@ ==> a.uuid == ids.schema_attr_unique && a.description
        == "If true, this attribute must store a unique value through out the database."@
    &&& n == "index"@ ==> a.uuid == ids.schema_attr_index && a.description
        == "Describe the indexes to apply to instances of this attribute."@
    &&& n == "syntax"@ ==> a.uuid == ids.schema_attr_syntax && a.description
        == "Describe the syntax of this attribute. This affects indexing and sorting."@
    &&& n == "systemmay"@ ==> a.uuid == ids.schema_attr_systemmay && a.description
        == "A list of system provided optional attributes this class can store."@
    &&& n == "may"@ ==> a.uuid == ids.schema_attr_may && a.description
        == "A user modifiable list of optional attributes this class can store."@
    &&& n == "systemmust"@ ==> a.uuid == ids.schema_attr_systemmust && a.description
        == "A list of system provided required attributes this class must store."@
    &&& n == "must"@ ==> a.uuid == ids.schema_attr_must && a.description
        == "A user modifiable list of required attributes this class must store."@
    &&& n == "acp_enable"@ ==> a.uuid == ids.schema_attr_acp_enable && a.description
        == "A flag to determine if this ACP is active for application. True is enabled, and enforce. False is checked but not enforced."@
    &&& n == "acp_receiver"@ ==> a.uuid == ids.schema_attr_acp_receiver && a.description
        == "Who the ACP applies to, constraining or allowing operations."@
    &&& n == "acp_targetscope"@ ==> a.uuid == ids.schema_attr_acp_targetscope && a.description
        == "The effective targets of the ACP, IE what will be acted upon."@
    &&& n == "acp_search_attr"@ ==> a.uuid == ids.schema_attr_acp_search_attr && a.description
        == "The attributes that may be viewed or searched by the reciever on targetscope."@
    &&& n == "acp_create_class"@ ==> a.uuid == ids.schema_attr_acp_create_class && a.description
        == "The set of classes that can be created on a new entry."@
    &&& n == "acp_create_attr"@ ==> a.uuid == ids.schema_attr_acp_create_attr && a.description
        == "The set of attribute types that can be created on an entry."@
    &&& n == "acp_modify_removedattr"@ ==> a.uuid == ids.schema_attr_acp_modify_removedattr && a.description
        == "The set of attribute types that could be removed or purged in a modification."@
    &&& n == "acp_modify_presentattr"@ ==> a.uuid == ids.schema_attr_acp_modify_presentattr && a.description
        == "The set of attribute types that could be added or asserted in a modification."@
    &&& n == "acp_modify_class"@ ==> a.uuid == ids.schema_attr_acp_modify_class && a.description
        == "The set of class values that could be asserted or added to an entry. Only applies to modify::present operations on class."@
    &&& n == "memberof"@ ==> a.uuid == ids.schema_attr_memberof && a.description
        == "reverse group membership of the object"@
    &&& n == "directmemberof"@ ==> a.uuid == ids.schema_attr_directmemberof && a.description
        == "reverse direct group membership of the object"@
    &&& n == "member"@ ==> a.uuid == ids.schema_attr_member && a.description
        == "List of members of the group"@
    &&& n == "version"@ ==> a.uuid == ids.schema_attr_version && a.description
        == "The systems internal migration version for provided objects"@
    &&& n == "domain"@ ==> a.uuid == ids.schema_attr_domain && a.description
        == "A DNS Domain name entry."@
    &&& n == "claim"@ ==> a.uuid == ids.schema_attr_claim && a.description
        == "The spn of a claim this entry holds"@
    &&& n == "password_import"@ ==> a.uuid == ids.schema_attr_password_import && a.description
        == "An imported password hash from an external system."@
    &&& n == "dn"@ ==> a.uuid == ids.schema_attr_dn && a.description
        == "An LDAP Compatible DN"@
    &&& n == "entryuuid"@ ==> a.uuid == ids.schema_attr_entryuuid && a.description
        == "An LDAP Compatible entryUUID"@
    &&& n == "objectclass"@ ==> a.uuid == ids.schema_attr_objectclass && a.description
        == "An LDAP Compatible objectClass"@
}

/// Whether it is told truly of some attributes.
spec fn all_origins_are_told(ids: SchemaUuids, m: Attributes) -> bool {
    forall|n: Seq<char>| #[trigger] m.contains_key(n) ==> origin_is_told(ids, n, m[n])
}

proof fn lemma_object_origins(m: Attributes, ids: SchemaUuids)
    requires
        all_origins_are_told(ids, m),
    ensures
        all_origins_are_told(ids, with_object_attributes(m, ids)),
{
    lemma_attribute_names();
    let all = with_object_attributes(m, ids);
    assert(origin_is_told(ids, "class"@, all["class"@]));
    assert(origin_is_told(ids, "uuid"@, all["uuid"@]));
    assert(origin_is_told(ids, "last_modified_cid"@, all["last_modified_cid"@]));
    assert(origin_is_told(ids, "name"@, all["name"@]));
    assert(origin_is_told(ids, "spn"@, all["spn"@]));
}

proof fn lemma_definition_origins(m: Attributes, ids: SchemaUuids)
    requires
        all_origins_are_told(ids, m),
    ensures
        all_origins_are_told(ids, with_definition_attributes(m, ids)),
{
    lemma_attribute_names();
    let all = with_definition_attributes(m, ids);
    assert(origin_is_told(ids, "attributename"@, all["attributename"@]));
    assert(origin_is_told(ids, "classname"@, all["classname"@]));
    assert(origin_is_told(ids, "description"@, all["description"@]));
    assert(origin_is_told(ids, "multivalue"@, all["multivalue"@]));
    assert(origin_is_told(ids, "phantom"@, all["phantom"@]));
    assert(origin_is_told(ids, "unique"@, all["unique"@]));
    assert(origin_is_told(ids, "index"@, all["index"@]));
    assert(origin_is_told(ids, "syntax"@, all["syntax"@]));
    assert(origin_is_told(ids, "systemmay"@, all["systemmay"@]));
    assert(origin_is_told(ids, "may"@, all["may"@]));
    assert(origin_is_told(ids, "systemmust"@, all["systemmust"@]));
    assert(origin_is_told(ids, "must"@, all["must"@]));
}

proof fn lemma_access_origins(m: Attributes, ids: SchemaUuids)
    requires
        all_origins_are_told(ids, m),
    ensures
        all_origins_are_told(ids, with_access_attributes(m, ids)),
{
    lemma_attribute_names();
    let all = with_access_attributes(m, ids);
    assert(origin_is_told(ids, "acp_enable"@, all["acp_enable"@]));
    assert(origin_is_told(ids, "acp_receiver"@, all["acp_receiver"@]));
    assert(origin_is_told(ids, "acp_targetscope"@, all["acp_targetscope"@]));
    assert(origin_is_told(ids, "acp_search_attr"@, all["acp_search_attr"@]));
    assert(origin_is_told(ids, "acp_create_class"@, all["acp_create_class"@]));
    assert(origin_is_told(ids, "acp_create_attr"@, all["acp_create_attr"@]));
    assert(origin_is_told(ids, "acp_modify_removedattr"@, all["acp_modify_removedattr"@]));
    assert(origin_is_told(ids, "acp_modify_presentattr"@, all["acp_modify_presentattr"@]));
    assert(origin_is_told(ids, "acp_modify_class"@, all["acp_modify_class"@]));
}

proof fn lemma_membership_origins(m: Attributes, ids: SchemaUuids)
    requires
        all_origins_are_told(ids, m),
    ensures
        all_origins_are_told(ids, with_membership_attributes(m, ids)),
{
    lemma_attribute_names();
    let all = with_membership_attributes(m, ids);
    assert(origin_is_told(ids, "memberof"@, all["memberof"@]));
    assert(origin_is_told(ids, "directmemberof"@, all["directmemberof"@]));
    assert(origin_is_told(ids, "member"@, all["member"@]));
    assert(origin_is_told(ids, "version"@, all["version"@]));
    assert(origin_is_told(ids, "domain"@, all["domain"@]));
}

proof fn lemma_phantom_origins(m: Attributes, ids: SchemaUuids)
    requires
        all_origins_are_told(ids, m),
    ensures
        all_origins_are_told(ids, with_phantom_attributes(m, ids)),
{
    lemma_attribute_names();
    let all = with_phantom_attributes(m, ids);
    assert(origin_is_told(ids, "claim"@, all["claim"@]));
    assert(origin_is_told(ids, "password_import"@, all["password_import"@]));
    assert(origin_is_told(ids, "dn"@, all["dn"@]));
    assert(origin_is_told(ids, "entryuuid"@, all["entryuuid"@]));
    assert(origin_is_told(ids, "objectclass"@, all["objectclass"@]));
}

/// The identifier that each attribute has that a schema starts with, and what it says
/// of itself.
pub proof fn law_core_attribute_origins(ids: SchemaUuids, n: Seq<char>)
    requires
        core_attributes(ids).contains_key(n),
    ensures
        ({
            let a = core_attributes(ids)[n];
            &&& n == "class"@ ==> a.uuid == ids.schema_attr_class && a.description
                == "The set of classes defining an object"@
            &&& n == "uuid"@ ==> a.uuid == ids.schema_attr_uuid && a.description
                == "The universal unique id of the object"@
            &&& n == "last_modified_cid"@ ==> a.uuid == ids.schema_attr_last_mod_cid && a.description
                == "The cid of the last change to this object"@
            &&& n == "name"@ ==> a.uuid == ids.schema_attr_name && a.description
                == "The shortform name of an object"@
            &&& n == "spn"@ ==> a.uuid == ids.schema_attr_spn && a.description
                == "The service principle name of an object, unique across all domain trusts"@
            &&& n == "attributename"@ ==> a.uuid == ids.schema_attr_attributename && a.description
                == "The name of a schema attribute"@
            &&& n == "classname"@ ==> a.uuid == ids.schema_attr_classname && a.description
                == "The name of a schema class"@
            &&& n == "description"@ ==> a.uuid == ids.schema_attr_description && a.description
                == "A description of an attribute, object or class"@
            &&& n == "multivalue"@ ==> a.uuid == ids.schema_attr_multivalue && a.description
                == "If true, this attribute is able to store multiple values rather than just a single value."@
            &&& n == "phantom"@ ==> a.uuid == ids.schema_attr_phantom && a.description
                == "If true, this attribute must NOT be present in any may/must sets of a class as. This represents generated attributes."@
            &&& n == "unique"@ ==> a.uuid == ids.schema_attr_unique && a.description
                == "If true, this attribute must store a unique value through out the database."@
            &&& n == "index"@ ==> a.uuid == ids.schema_attr_index && a.description
                == "Describe the indexes to apply to instances of this attribute."@
            &&& n == "syntax"@ ==> a.uuid == ids.schema_attr_syntax && a.description
                == "Describe the syntax of this attribute. This affects indexing and sorting."@
            &&& n == "systemmay"@ ==> a.uuid == ids.schema_attr_systemmay && a.description
                == "A list of system provided optional attributes this class can store."@
            &&& n == "may"@ ==> a.uuid == ids.schema_attr_may && a.description
                == "A user modifiable list of optional attributes this class can store."@
            &&& n == "systemmust"@ ==> a.uuid == ids.schema_attr_systemmust && a.description
                == "A list of system provided required attributes this class must store."@
            &&& n == "must"@ ==> a.uuid == ids.schema_attr_must && a.description
                == "A user modifiable list of required attributes this class must store."@
            &&& n == "acp_enable"@ ==> a.uuid == ids.schema_attr_acp_enable && a.description
                == "A flag to determine if this ACP is active for application. True is enabled, and enforce. False is checked but not enforced."@
            &&& n == "acp_receiver"@ ==> a.uuid == ids.schema_attr_acp_receiver && a.description
                == "Who the ACP applies to, constraining or allowing operations."@
            &&& n == "acp_targetscope"@ ==> a.uuid == ids.schema_attr_acp_targetscope && a.description
                == "The effective targets of the ACP, IE what will be acted upon."@
            &&& n == "acp_search_attr"@ ==> a.uuid == ids.schema_attr_acp_search_attr && a.description
                == "The attributes that may be viewed or searched by the reciever on targetscope."@
            &&& n == "acp_create_class"@ ==> a.uuid == ids.schema_attr_acp_create_class && a.description
                == "The set of classes that can be created on a new entry."@
            &&& n == "acp_create_attr"@ ==> a.uuid == ids.schema_attr_acp_create_attr && a.description
                == "The set of attribute types that can be created on an entry."@
            &&& n == "acp_modify_removedattr"@ ==> a.uuid == ids.schema_attr_acp_modify_removedattr && a.description
                == "The set of attribute types that could be removed or purged in a modification."@
            &&& n == "acp_modify_presentattr"@ ==> a.uuid == ids.schema_attr_acp_modify_presentattr && a.description
                == "The set of attribute types that could be added or asserted in a modification."@
            &&& n == "acp_modify_class"@ ==> a.uuid == ids.schema_attr_acp_modify_class && a.description
                == "The set of class values that could be asserted or added to an entry. Only applies to modify::present operations on class."@
            &&& n == "memberof"@ ==> a.uuid == ids.schema_attr_memberof && a.description
                == "reverse group membership of the object"@
            &&& n == "directmemberof"@ ==> a.uuid == ids.schema_attr_directmemberof && a.description
                == "reverse direct group membership of the object"@
            &&& n == "member"@ ==> a.uuid == ids.schema_attr_member && a.description
                == "List of members of the group"@
            &&& n == "version"@ ==> a.uuid == ids.schema_attr_version && a.description
                == "The systems internal migration version for provided objects"@
            &&& n == "domain"@ ==> a.uuid == ids.schema_attr_domain && a.description
                == "A DNS Domain name entry."@
            &&& n == "claim"@ ==> a.uuid == ids.schema_attr_claim && a.description
                == "The spn of a claim this entry holds"@
            &&& n == "password_import"@ ==> a.uuid == ids.schema_attr_password_import && a.description
                == "An imported password hash from an external system."@
            &&& n == "dn"@ ==> a.uuid == ids.schema_attr_dn && a.description
                == "An LDAP Compatible DN"@
            &&& n == "entryuuid"@ ==> a.uuid == ids.schema_attr_entryuuid && a.description
                == "An LDAP Compatible entryUUID"@
            &&& n == "objectclass"@ ==> a.uuid == ids.schema_attr_objectclass && a.description
                == "An LDAP Compatible objectClass"@
        }),
{
    let m = Attributes::empty();
    lemma_object_origins(m, ids);
    let m = with_object_attributes(m, ids);
    lemma_definition_origins(m, ids);
    let m = with_definition_attributes(m, ids);
    lemma_access_origins(m, ids);
    let m = with_access_attributes(m, ids);
    lemma_membership_origins(m, ids);
    let m = with_membership_attributes(m, ids);
    lemma_phantom_origins(m, ids);
}

/// What is told of a class of the core.
spec fn class_is_told(ids: SchemaUuids, n: Seq<char>, c: SchemaClassView) -> bool {
    &&& c.name == n
    &&& c.may.len() == 0
    &&& c.must.len() == 0
    &&& n == "attributetype"@ ==> {
        &&& c.uuid == ids.schema_class_attributetype
        &&& c.description == "Definition of a schema attribute"@
        &&& c.systemmay =~= seq!["phantom"@, "index"@]
        &&& c.systemmust =~= seq!["class"@, "attributename"@, "multivalue"@, "unique"@, "syntax"@, "description"@]
    }
    &&& n == "classtype"@ ==> {
        &&& c.uuid == ids.schema_class_classtype
        &&& c.description == "Definition of a schema classtype"@
        &&& c.systemmay =~= seq!["systemmay"@, "may"@, "systemmust"@, "must"@]
        &&& c.systemmust =~= seq!["class"@, "classname"@, "description"@]
    }
    &&& n == "object"@ ==> {
        &&& c.uuid == ids.schema_class_object
        &&& c.description == "A system created class that all objects must contain"@
        &&& c.systemmay =~= seq!["description"@]
        &&& c.systemmust =~= seq!["class"@, "uuid"@, "last_modified_cid"@]
    }
    &&& n == "memberof"@ ==> {
        &&& c.uuid == ids.schema_class_memberof
        &&& c.description == "Class that is dynamically added to recepients of memberof or directmemberof"@
        &&& c.systemmay =~= seq!["memberof"@, "directmemberof"@]
        &&& c.systemmust =~= Seq::<Seq<char>>::empty()
    }
    &&& n == "extensibleobject"@ ==> {
        &&& c.uuid == ids.schema_class_extensibleobject
        &&& c.description == "A class type that has green hair and turns off all rules ..."@
        &&& c.systemmay =~= Seq::<Seq<char>>::empty()
        &&& c.systemmust =~= Seq::<Seq<char>>::empty()
    }
    &&& n == "recycled"@ ==> {
        &&& c.uuid == ids.schema_class_recycled
        &&& c.description == "An object that has been deleted, but still recoverable via the revive operation. Recycled objects are not modifiable, only revivable."@
        &&& c.systemmay =~= Seq::<Seq<char>>::empty()
        &&& c.systemmust =~= Seq::<Seq<char>>::empty()
    }
    &&& n == "tombstone"@ ==> {
        &&& c.uuid == ids.schema_class_tombstone
        &&& c.description == "An object that is purged from the recycle bin. This is a system internal state. Tombstones have no attributes beside UUID."@
        &&& c.systemmay =~= Seq::<Seq<char>>::empty()
        &&& c.systemmust =~= seq!["class"@, "uuid"@]
    }
    &&& n == "system_info"@ ==> {
        &&& c.uuid == ids.schema_class_system_info
        &&& c.description == "System metadata object class"@
        &&& c.systemmay =~= Seq::<Seq<char>>::empty()
        &&& c.systemmust =~= seq!["version"@]
    }
    &&& n == "access_control_profile"@ ==> {
        &&& c.uuid == ids.schema_class_access_control_profile
        &&& c.description == "System Access Control Profile Class"@
        &&& c.systemmay =~= seq!["acp_enable"@, "description"@]
        &&& c.systemmust =~= seq!["acp_receiver"@, "acp_targetscope"@, "name"@]
    }
    &&& n == "access_control_search"@ ==> {
        &&& c.uuid == ids.schema_class_access_control_search
        &&& c.description == "System Access Control Search Class"@
        &&& c.systemmay =~= Seq::<Seq<char>>::empty()
        &&& c.systemmust =~= seq!["acp_search_attr"@]
    }
    &&& n == "access_control_delete"@ ==> {
        &&& c.uuid == ids.schema_class_access_control_delete
        &&& c.description == "System Access Control DELETE Class"@
        &&& c.systemmay =~= Seq::<Seq<char>>::empty()
        &&& c.systemmust =~= Seq::<Seq<char>>::empty()
    }
    &&& n == "access_control_modify"@ ==> {
        &&& c.uuid == ids.schema_class_access_control_modify
        &&& c.description == "System Access Control Modify Class"@
        &&& c.systemmay =~= seq!["acp_modify_removedattr"@, "acp_modify_presentattr"@, "acp_modify_class"@]
        &&& c.systemmust =~= Seq::<Seq<char>>::empty()
    }
    &&& n == "access_control_create"@ ==> {
        &&& c.uuid == ids.schema_class_access_control_create
        &&& c.description == "System Access Control Create Class"@
        &&& c.systemmay =~= seq!["acp_create_class"@, "acp_create_attr"@]
        &&& c.systemmust =~= Seq::<Seq<char>>::empty()
    }
    &&& n == "system"@ ==> {
        &&& c.uuid == ids.schema_class_system
        &&& c.description == "A class denoting that a type is system generated and protected. It has special internal behaviour."@
        &&& c.systemmay =~= Seq::<Seq<char>>::empty()
        &&& c.systemmust =~= Seq::<Seq<char>>::empty()
    }
}

/// Whether it is told truly of some classes.
spec fn all_classes_are_told(ids: SchemaUuids, m: Classes) -> bool {
    forall|n: Seq<char>| #[trigger] m.contains_key(n) ==> class_is_told(ids, n, m[n])
}

proof fn lemma_structural_classes(m: Classes, ids: SchemaUuids)
    requires
        all_classes_are_told(ids, m),
    ensures
        all_classes_are_told(ids, with_structural_classes(m, ids)),
{
    lemma_class_names();
    let all = with_structural_classes(m, ids);
    assert(class_is_told(ids, "attributetype"@, all["attributetype"@]));
    assert(class_is_told(ids, "classtype"@, all["classtype"@]));
    assert(class_is_told(ids, "object"@, all["object"@]));
    assert(class_is_told(ids, "memberof"@, all["memberof"@]));
    assert(class_is_told(ids, "extensibleobject"@, all["extensibleobject"@]));
    assert(class_is_told(ids, "recycled"@, all["recycled"@]));
    assert(class_is_told(ids, "tombstone"@, all["tombstone"@]));
}

proof fn lemma_system_classes(m: Classes, ids: SchemaUuids)
    requires
        all_classes_are_told(ids, m),
    ensures
        all_classes_are_told(ids, with_system_classes(m, ids)),
{
    lemma_class_names();
    let all = with_system_classes(m, ids);
    assert(class_is_told(ids, "system_info"@, all["system_info"@]));
    assert(class_is_told(ids, "access_control_profile"@, all["access_control_profile"@]));
    assert(class_is_told(ids, "access_control_search"@, all["access_control_search"@]));
    assert(class_is_told(ids, "access_control_delete"@, all["access_control_delete"@]));
    assert(class_is_told(ids, "access_control_modify"@, all["access_control_modify"@]));
    assert(class_is_told(ids, "access_control_create"@, all["access_control_create"@]));
    assert(class_is_told(ids, "system"@, all["system"@]));
}

/// The classes that a schema starts with: under which names they stand, which
/// identifier each has, what it says of itself, and what it demands and allows. An
/// administrator has added nothing to them.
pub proof fn law_core_class_rules(ids: SchemaUuids, n: Seq<char>)
    ensures
        core_classes(ids).contains_key(n) <==> {
            ||| n == "attributetype"@
            ||| n == "classtype"@
            ||| n == "object"@
            ||| n == "memberof"@
            ||| n == "extensibleobject"@
            ||| n == "recycled"@
            ||| n == "tombstone"@
            ||| n == "system_info"@
            ||| n == "access_control_profile"@
            ||| n == "access_control_search"@
            ||| n == "access_control_delete"@
            ||| n == "access_control_modify"@
            ||| n == "access_control_create"@
            ||| n == "system"@
        },
        core_classes(ids).contains_key(n) ==> {
            let c = core_classes(ids)[n];
            &&& c.name == n
            &&& c.may.len() == 0
            &&& c.must.len() == 0
            &&& n == "attributetype"@ ==> {
                &&& c.uuid == ids.schema_class_attributetype
                &&& c.description == "Definition of a schema attribute"@
                &&& c.systemmay =~= seq!["phantom"@, "index"@]
                &&& c.systemmust =~= seq!["class"@, "attributename"@, "multivalue"@, "unique"@, "syntax"@, "description"@]
            }
            &&& n == "classtype"@ ==> {
                &&& c.uuid == ids.schema_class_classtype
                &&& c.description == "Definition of a schema classtype"@
                &&& c.systemmay =~= seq!["systemmay"@, "may"@, "systemmust"@, "must"@]
                &&& c.systemmust =~= seq!["class"@, "classname"@, "description"@]
            }
            &&& n == "object"@ ==> {
                &&& c.uuid == ids.schema_class_object
                &&& c.description == "A system created class that all objects must contain"@
                &&& c.systemmay =~= seq!["description"@]
                &&& c.systemmust =~= seq!["class"@, "uuid"@, "last_modified_cid"@]
            }
            &&& n == "memberof"@ ==> {
                &&& c.uuid == ids.schema_class_memberof
                &&& c.description == "Class that is dynamically added to recepients of memberof or directmemberof"@
                &&& c.systemmay =~= seq!["memberof"@, "directmemberof"@]
                &&& c.systemmust =~= Seq::<Seq<char>>::empty()
            }
            &&& n == "extensibleobject"@ ==> {
                &&& c.uuid == ids.schema_class_extensibleobject
                &&& c.description == "A class type that has green hair and turns off all rules ..."@
                &&& c.systemmay =~= Seq::<Seq<char>>::empty()
                &&& c.systemmust =~= Seq::<Seq<char>>::empty()
            }
            &&& n == "recycled"@ ==> {
                &&& c.uuid == ids.schema_class_recycled
                &&& c.description == "An object that has been deleted, but still recoverable via the revive operation. Recycled objects are not modifiable, only revivable."@
                &&& c.systemmay =~= Seq::<Seq<char>>::empty()
                &&& c.systemmust =~= Seq::<Seq<char>>::empty()
            }
            &&& n == "tombstone"@ ==> {
                &&& c.uuid == ids.schema_class_tombstone
                &&& c.description == "An object that is purged from the recycle bin. This is a system internal state. Tombstones have no attributes beside UUID."@
                &&& c.systemmay =~= Seq::<Seq<char>>::empty()
                &&& c.systemmust =~= seq!["class"@, "uuid"@]
            }
            &&& n == "system_info"@ ==> {
                &&& c.uuid == ids.schema_class_system_info
                &&& c.description == "System metadata object class"@
                &&& c.systemmay =~= Seq::<Seq<char>>::empty()
                &&& c.systemmust =~= seq!["version"@]
            }
            &&& n == "access_control_profile"@ ==> {
                &&& c.uuid == ids.schema_class_access_control_profile
                &&& c.description == "System Access Control Profile Class"@
                &&& c.systemmay =~= seq!["acp_enable"@, "description"@]
                &&& c.systemmust =~= seq!["acp_receiver"@, "acp_targetscope"@, "name"@]
            }
            &&& n == "access_control_search"@ ==> {
                &&& c.uuid == ids.schema_class_access_control_search
                &&& c.description == "System Access Control Search Class"@
                &&& c.systemmay =~= Seq::<Seq<char>>::empty()
                &&& c.systemmust =~= seq!["acp_search_attr"@]
            }
            &&& n == "access_control_delete"@ ==> {
                &&& c.uuid == ids.schema_class_access_control_delete
                &&& c.description == "System Access Control DELETE Class"@
                &&& c.systemmay =~= Seq::<Seq<char>>::empty()
                &&& c.systemmust =~= Seq::<Seq<char>>::empty()
            }
            &&& n == "access_control_modify"@ ==> {
                &&& c.uuid == ids.schema_class_access_control_modify
                &&& c.description == "System Access Control Modify Class"@
                &&& c.systemmay =~= seq!["acp_modify_removedattr"@, "acp_modify_presentattr"@, "acp_modify_class"@]
                &&& c.systemmust =~= Seq::<Seq<char>>::empty()
            }
            &&& n == "access_control_create"@ ==> {
                &&& c.uuid == ids.schema_class_access_control_create
                &&& c.description == "System Access Control Create Class"@
                &&& c.systemmay =~= seq!["acp_create_class"@, "acp_create_attr"@]
                &&& c.systemmust =~= Seq::<Seq<char>>::empty()
            }
            &&& n == "system"@ ==> {
                &&& c.uuid == ids.schema_class_system
                &&& c.description == "A class denoting that a type is system generated and protected. It has special internal behaviour."@
                &&& c.systemmay =~= Seq::<Seq<char>>::empty()
                &&& c.systemmust =~= Seq::<Seq<char>>::empty()
            }
        },
{
    lemma_structural_classes(Classes::empty(), ids);
    lemma_system_classes(with_structural_classes(Classes::empty(), ids), ids);
}

/// A new schema has the classes and attributes of the core, under the identifiers that
/// it is given, and nothing in its caches.
pub proof fn law_new_schema(ids: SchemaUuids, r: Result<Schema, OperationError>)
    requires
        call_ensures(Schema::new, (&ids,), r),
    ensures
        r is Ok,
        r->Ok_0@.attributes == core_attributes(ids),
        r->Ok_0@.classes == core_classes(ids),
        r->Ok_0@.unique_cache.len() == 0,
        r->Ok_0@.ref_cache == Attributes::empty(),
{
}

} // verus!
