use hashbrown::HashSet;
use kanidm_schema::{
    ConsistencyError, Entry, Filter, IdxKey, IndexType, OperationError, PartialValue, Schema,
    SchemaAttribute, SchemaClass, SchemaError, SchemaTransaction, SchemaUuids, SealedEntry,
    SyntaxType, Value, ValueSet,
};
use uuid::Uuid;

fn ids() -> SchemaUuids {
    SchemaUuids {
        schema_attr_class: Uuid::from_u128(0xffff_0000 + 0),
        schema_attr_uuid: Uuid::from_u128(0xffff_0000 + 1),
        schema_attr_last_mod_cid: Uuid::from_u128(0xffff_0000 + 2),
        schema_attr_name: Uuid::from_u128(0xffff_0000 + 3),
        schema_attr_spn: Uuid::from_u128(0xffff_0000 + 4),
        schema_attr_attributename: Uuid::from_u128(0xffff_0000 + 5),
        schema_attr_classname: Uuid::from_u128(0xffff_0000 + 6),
        schema_attr_description: Uuid::from_u128(0xffff_0000 + 7),
        schema_attr_multivalue: Uuid::from_u128(0xffff_0000 + 8),
        schema_attr_phantom: Uuid::from_u128(0xffff_0000 + 9),
        schema_attr_unique: Uuid::from_u128(0xffff_0000 + 10),
        schema_attr_index: Uuid::from_u128(0xffff_0000 + 11),
        schema_attr_syntax: Uuid::from_u128(0xffff_0000 + 12),
        schema_attr_systemmay: Uuid::from_u128(0xffff_0000 + 13),
        schema_attr_may: Uuid::from_u128(0xffff_0000 + 14),
        schema_attr_systemmust: Uuid::from_u128(0xffff_0000 + 15),
        schema_attr_must: Uuid::from_u128(0xffff_0000 + 16),
        schema_attr_acp_enable: Uuid::from_u128(0xffff_0000 + 17),
        schema_attr_acp_receiver: Uuid::from_u128(0xffff_0000 + 18),
        schema_attr_acp_targetscope: Uuid::from_u128(0xffff_0000 + 19),
        schema_attr_acp_search_attr: Uuid::from_u128(0xffff_0000 + 20),
        schema_attr_acp_create_class: Uuid::from_u128(0xffff_0000 + 21),
        schema_attr_acp_create_attr: Uuid::from_u128(0xffff_0000 + 22),
        schema_attr_acp_modify_removedattr: Uuid::from_u128(0xffff_0000 + 23),
        schema_attr_acp_modify_presentattr: Uuid::from_u128(0xffff_0000 + 24),
        schema_attr_acp_modify_class: Uuid::from_u128(0xffff_0000 + 25),
        schema_attr_memberof: Uuid::from_u128(0xffff_0000 + 26),
        schema_attr_directmemberof: Uuid::from_u128(0xffff_0000 + 27),
        schema_attr_member: Uuid::from_u128(0xffff_0000 + 28),
        schema_attr_version: Uuid::from_u128(0xffff_0000 + 29),
        schema_attr_domain: Uuid::from_u128(0xffff_0000 + 30),
        schema_attr_claim: Uuid::from_u128(0xffff_0000 + 31),
        schema_attr_password_import: Uuid::from_u128(0xffff_0000 + 32),
        schema_attr_dn: Uuid::from_u128(0xffff_0000 + 33),
        schema_attr_entryuuid: Uuid::from_u128(0xffff_0000 + 34),
        schema_attr_objectclass: Uuid::from_u128(0xffff_0000 + 35),
        schema_class_attributetype: Uuid::from_u128(0xffff_0000 + 36),
        schema_class_classtype: Uuid::from_u128(0xffff_0000 + 37),
        schema_class_object: Uuid::from_u128(0xffff_0000 + 38),
        schema_class_memberof: Uuid::from_u128(0xffff_0000 + 39),
        schema_class_extensibleobject: Uuid::from_u128(0xffff_0000 + 40),
        schema_class_recycled: Uuid::from_u128(0xffff_0000 + 41),
        schema_class_tombstone: Uuid::from_u128(0xffff_0000 + 42),
        schema_class_system_info: Uuid::from_u128(0xffff_0000 + 43),
        schema_class_access_control_profile: Uuid::from_u128(0xffff_0000 + 44),
        schema_class_access_control_search: Uuid::from_u128(0xffff_0000 + 45),
        schema_class_access_control_delete: Uuid::from_u128(0xffff_0000 + 46),
        schema_class_access_control_modify: Uuid::from_u128(0xffff_0000 + 47),
        schema_class_access_control_create: Uuid::from_u128(0xffff_0000 + 48),
        schema_class_system: Uuid::from_u128(0xffff_0000 + 49),
    }
}

fn new_schema() -> Schema {
    match Schema::new(&ids()) {
        Ok(s) => s,
        Err(_) => panic!("failed to create schema"),
    }
}

/// A value as the server reads it from text: of the kind that the attribute
/// takes, or plain text if it cannot be read as that kind.
fn value(attr: &str, v: &str) -> Value {
    let text = || Value::new(PartialValue::Utf8(v.to_string()));
    match attr {
        "class" | "attributename" | "classname" | "systemmay" | "may" | "systemmust" | "must" => {
            Value::new_iutf8(v)
        }
        "name" => Value::new(PartialValue::Iname(v.to_lowercase())),
        "uuid" => match Uuid::parse_str(v) {
            Ok(u) => Value::new(PartialValue::Uuid(u)),
            Err(_) => text(),
        },
        "multivalue" | "unique" | "phantom" => match v {
            "true" => Value::new_bool(true),
            "false" => Value::new_bool(false),
            _ => text(),
        },
        "syntax" => Value::new_syntaxs(v).unwrap_or_else(text),
        "index" => Value::new_indexs(v).unwrap_or_else(text),
        _ => text(),
    }
}

fn entry(attrs: &[(&str, &[&str])]) -> Entry {
    let mut e = Entry::new();
    for (attr, values) in attrs {
        let name = attr.to_lowercase();
        for v in values.iter() {
            e.add_ava(&name, value(&name, v));
        }
    }
    e
}

fn sealed(attrs: &[(&str, &[&str])]) -> SealedEntry {
    SealedEntry {
        uuid: Uuid::from_u128(7),
        entry: entry(attrs),
    }
}

fn set(values: Vec<Value>) -> ValueSet {
    let mut r = ValueSet::new();
    for v in values {
        r.insert(v);
    }
    r
}

fn attribute(name: &str, multivalue: bool, syntax: SyntaxType) -> SchemaAttribute {
    SchemaAttribute {
        name: name.to_string(),
        uuid: Uuid::from_u128(1),
        description: format!("about {}", name),
        multivalue,
        unique: false,
        phantom: false,
        index: vec![],
        syntax,
    }
}

fn class(name: &str, must: &[&str], may: &[&str]) -> SchemaClass {
    SchemaClass {
        name: name.to_string(),
        uuid: Uuid::from_u128(2),
        description: format!("about {}", name),
        systemmay: vec![],
        may: may.iter().map(|s| s.to_string()).collect(),
        systemmust: vec![],
        must: must.iter().map(|s| s.to_string()).collect(),
    }
}

fn names<V>(table: &hashbrown::HashMap<String, V>) -> Vec<String> {
    let mut r: Vec<String> = table.keys().cloned().collect();
    r.sort();
    r
}

fn reason<T>(r: Result<T, OperationError>) -> String {
    match r {
        Err(OperationError::InvalidSchemaState(s)) => s,
        _ => panic!("another outcome was expected"),
    }
}

#[test]
fn a_new_schema_holds_the_core() {
    let schema = new_schema();
    let txn = schema.read();
    assert_eq!(txn.get_attributes().len(), 36);
    assert_eq!(txn.get_classes().len(), 14);
    assert!(txn.get_attributes_unique().is_empty());
    assert!(txn.get_reference_types().is_empty());

    let name = txn.get_attributes().get("name").unwrap();
    assert_eq!(name.name, "name");
    assert_eq!(name.uuid, ids().schema_attr_name);
    assert_eq!(name.description, "The shortform name of an object");
    assert_eq!(
        (name.multivalue, name.unique, name.phantom),
        (false, true, false)
    );
    assert_eq!(name.index, vec![IndexType::EQUALITY, IndexType::PRESENCE]);
    assert_eq!(name.syntax, SyntaxType::UTF8STRING_INAME);

    let object = txn.get_classes().get("object").unwrap();
    assert_eq!(object.uuid, ids().schema_class_object);
    assert_eq!(object.systemmay, vec!["description"]);
    assert_eq!(object.systemmust, vec!["class", "uuid", "last_modified_cid"]);
    assert!(object.may.is_empty() && object.must.is_empty());

    let mut phantoms: Vec<&str> = txn
        .get_attributes()
        .values()
        .filter(|a| a.phantom)
        .map(|a| a.name.as_str())
        .collect();
    phantoms.sort();
    assert_eq!(
        phantoms,
        vec!["claim", "dn", "entryuuid", "objectclass", "password_import"]
    );
    assert!(txn.get_attributes().iter().all(|(k, a)| *k == a.name));
    assert!(txn.get_classes().iter().all(|(k, c)| *k == c.name));
    assert!(txn
        .get_attributes()
        .keys()
        .all(|k| txn.normalise_attr_name(k) == *k));
}

#[test]
fn a_read_gives_back_what_was_committed() {
    let mut schema = new_schema();
    let before = schema.read();
    let mut txn = schema.write();
    assert!(txn
        .update_attributes(vec![attribute("a", true, SyntaxType::UTF8STRING)])
        .is_ok());
    assert!(txn.update_classes(vec![class("c", &["a"], &[])]).is_ok());
    assert_eq!(txn.is_multivalue("a"), Ok(true));
    assert!(txn.commit().is_ok());

    let after = schema.read();
    assert_eq!(names(after.get_attributes()), vec!["a"]);
    assert_eq!(names(after.get_classes()), vec!["c"]);
    // What was handed out earlier stays as it was.
    assert_eq!(before.get_attributes().len(), 36);
    assert_eq!(before.get_classes().len(), 14);
}

#[test]
fn an_abandoned_transaction_changes_nothing() {
    let mut schema = new_schema();
    {
        let mut txn = schema.write();
        assert!(txn.update_attributes(vec![]).is_ok());
        assert!(txn.update_classes(vec![]).is_ok());
        assert!(txn.get_attributes().is_empty());
    }
    let txn = schema.read();
    assert_eq!(txn.get_attributes().len(), 36);
    assert_eq!(txn.get_classes().len(), 14);
}

#[test]
fn generating_again_restores_the_core_and_keeps_the_caches() {
    let mut schema = new_schema();
    let mut txn = schema.write();
    let mut a = attribute("a", true, SyntaxType::REFERENCE_UUID);
    a.unique = true;
    assert!(txn.update_attributes(vec![a]).is_ok());
    assert!(txn.update_classes(vec![]).is_ok());
    assert!(txn.generate_in_memory(&ids()).is_ok());
    assert_eq!(txn.get_attributes().len(), 36);
    assert_eq!(txn.get_classes().len(), 14);
    assert_eq!(txn.get_attributes_unique(), &vec!["a".to_string()]);
    assert_eq!(names(txn.get_reference_types()), vec!["a"]);
}

#[test]
fn the_caches_agree_with_the_attributes() {
    let mut schema = new_schema();
    let mut txn = schema.write();
    let mut u = attribute("u", false, SyntaxType::UTF8STRING_INAME);
    u.unique = true;
    let r = attribute("r", true, SyntaxType::REFERENCE_UUID);
    let mut ur = attribute("ur", true, SyntaxType::REFERENCE_UUID);
    ur.unique = true;
    let p = attribute("p", true, SyntaxType::UUID);
    assert!(txn.update_attributes(vec![u, r, ur, p]).is_ok());
    assert_eq!(names(txn.get_attributes()), vec!["p", "r", "u", "ur"]);
    assert_eq!(names(txn.get_reference_types()), vec!["r", "ur"]);
    assert_eq!(
        txn.get_attributes_unique(),
        &vec!["u".to_string(), "ur".to_string()]
    );
}

#[test]
fn the_later_of_two_attributes_of_one_name_stays() {
    let mut schema = new_schema();
    let mut txn = schema.write();
    let first = attribute("a", false, SyntaxType::REFERENCE_UUID);
    let second = attribute("a", true, SyntaxType::BOOLEAN);
    assert!(txn.update_attributes(vec![first, second]).is_ok());
    assert_eq!(txn.get_attributes().len(), 1);
    assert_eq!(
        txn.get_attributes().get("a").unwrap().syntax,
        SyntaxType::BOOLEAN
    );
    // The references were gathered on the way and keep the first.
    assert_eq!(names(txn.get_reference_types()), vec!["a"]);

    assert!(txn
        .update_classes(vec![class("c", &["a"], &[]), class("c", &[], &["a"])])
        .is_ok());
    assert_eq!(txn.get_classes().len(), 1);
    assert!(txn.get_classes().get("c").unwrap().must.is_empty());
}

#[test]
fn indexes_are_gathered_from_all_attributes() {
    let mut schema = new_schema();
    let mut txn = schema.write();
    let mut a = attribute("a", true, SyntaxType::UTF8STRING);
    a.index = vec![
        IndexType::EQUALITY,
        IndexType::SUBSTRING,
        IndexType::EQUALITY,
    ];
    let mut b = attribute("b", true, SyntaxType::UTF8STRING);
    b.index = vec![IndexType::PRESENCE];
    let c = attribute("c", true, SyntaxType::UTF8STRING);
    assert!(txn.update_attributes(vec![a, b, c]).is_ok());
    let found = txn.reload_idxmeta();
    let mut expected = HashSet::new();
    for (attr, itype) in vec![
        ("a", IndexType::EQUALITY),
        ("a", IndexType::SUBSTRING),
        ("b", IndexType::PRESENCE),
    ] {
        expected.insert(IdxKey {
            attr: attr.to_string(),
            itype,
        });
    }
    assert!(found == expected);
}

#[test]
fn definitions_are_read_back_as_they_were_written() {
    let mut schema = new_schema();
    let txn = schema.write();
    let entries = txn.to_entries();
    assert_eq!(entries.len(), 50);

    let mut attributes: Vec<SchemaAttribute> = vec![];
    let mut classes: Vec<SchemaClass> = vec![];
    for (i, e) in entries.into_iter().enumerate() {
        let uuid = match e.get_ava_single("uuid") {
            Some(PartialValue::Uuid(u)) => *u,
            _ => panic!("a definition has an identifier"),
        };
        let s = SealedEntry { uuid, entry: e };
        if i < 36 {
            attributes.push(SchemaAttribute::try_from(&s).unwrap());
            assert!(SchemaClass::try_from(&s).is_err());
        } else {
            classes.push(SchemaClass::try_from(&s).unwrap());
            assert!(SchemaAttribute::try_from(&s).is_err());
        }
    }
    for a in &attributes {
        let b = txn.get_attributes().get(&a.name).unwrap();
        assert_eq!(format!("{:?}", a), format!("{:?}", b));
    }
    for c in &classes {
        let d = txn.get_classes().get(&c.name).unwrap();
        // The lists of names come back in ascending order.
        let mut d = d.clone();
        d.systemmay.sort();
        d.may.sort();
        d.systemmust.sort();
        d.must.sort();
        assert_eq!(format!("{:?}", c), format!("{:?}", d));
    }

    let mut other = new_schema();
    let mut txn = other.write();
    assert!(txn.update_attributes(attributes).is_ok());
    assert!(txn.update_classes(classes).is_ok());
    assert_eq!(txn.get_attributes().len(), 36);
    assert_eq!(txn.get_classes().len(), 14);
    assert!(txn.validate().is_empty());
}

#[test]
fn validate_reports_what_is_wrong_and_nothing_else() {
    let mut schema = new_schema();
    let mut txn = schema.write();
    let mut ghost = attribute("g", true, SyntaxType::UTF8STRING);
    ghost.phantom = true;
    assert!(txn
        .update_attributes(vec![attribute("a", true, SyntaxType::UTF8STRING), ghost])
        .is_ok());
    let mut c = class("c", &["z"], &["g"]);
    c.systemmay = vec!["a".to_string(), "y".to_string()];
    c.systemmust = vec!["g".to_string()];
    assert!(txn.update_classes(vec![c]).is_ok());
    let missing = |a: &str| {
        Err(ConsistencyError::SchemaClassMissingAttribute(
            "c".to_string(),
            a.to_string(),
        ))
    };
    let phantom = |a: &str| {
        Err(ConsistencyError::SchemaClassPhantomAttribute(
            "c".to_string(),
            a.to_string(),
        ))
    };
    assert_eq!(
        txn.validate(),
        vec![missing("y"), phantom("g"), phantom("g"), missing("z")]
    );
}

#[test]
fn attributes_are_looked_up_by_name() {
    let schema = new_schema();
    let txn = schema.read();
    assert_eq!(txn.is_multivalue("class"), Ok(true));
    assert_eq!(txn.is_multivalue("name"), Ok(false));
    assert_eq!(
        txn.is_multivalue("Class"),
        Err(SchemaError::InvalidAttribute("Class".to_string()))
    );
    assert_eq!(txn.normalise_attr_name("ClAsS_1"), "class_1");
    assert_eq!(txn.normalise_attr_name("\u{c9}CLAIR"), "\u{e9}clair");
    assert_eq!(
        txn.normalise_attr_if_exists("class"),
        Some("class".to_string())
    );
    assert_eq!(txn.normalise_attr_if_exists("CLASS"), None);

    // A name that the schema has in another case is normalised.
    let mut other = new_schema();
    let mut txn = other.write();
    assert!(txn
        .update_attributes(vec![attribute("Mixed", true, SyntaxType::UTF8STRING)])
        .is_ok());
    assert_eq!(
        txn.normalise_attr_if_exists("Mixed"),
        Some("mixed".to_string())
    );
}

fn one_of_each() -> Vec<(SyntaxType, PartialValue)> {
    let s = || "x".to_string();
    let u = Uuid::from_u128(9);
    vec![
        (SyntaxType::UTF8STRING, PartialValue::Utf8(s())),
        (SyntaxType::UTF8STRING_INSENSITIVE, PartialValue::Iutf8(s())),
        (SyntaxType::UTF8STRING_INAME, PartialValue::Iname(s())),
        (SyntaxType::UUID, PartialValue::Uuid(u)),
        (SyntaxType::BOOLEAN, PartialValue::Bool(true)),
        (
            SyntaxType::SYNTAX_ID,
            PartialValue::Syntax(SyntaxType::CID),
        ),
        (
            SyntaxType::INDEX_ID,
            PartialValue::Index(IndexType::PRESENCE),
        ),
        (SyntaxType::REFERENCE_UUID, PartialValue::Refer(u)),
        (SyntaxType::JSON_FILTER, PartialValue::JsonFilt(s())),
        (SyntaxType::CREDENTIAL, PartialValue::Cred(s())),
        (SyntaxType::RADIUS_UTF8STRING, PartialValue::RadiusCred),
        (SyntaxType::SSHKEY, PartialValue::SshKey(s())),
        (
            SyntaxType::SERVICE_PRINCIPLE_NAME,
            PartialValue::Spn(s(), s()),
        ),
        (SyntaxType::UINT32, PartialValue::Uint32(5)),
        (SyntaxType::CID, PartialValue::Cid(5)),
        (SyntaxType::NSUNIQUEID, PartialValue::Nsuniqueid(s())),
    ]
}

#[test]
fn each_kind_of_value_fits_one_syntax() {
    let refused = Err(SchemaError::InvalidAttributeSyntax("a".to_string()));
    for (i, (syntax, _)) in one_of_each().into_iter().enumerate() {
        let a = attribute("a", false, syntax);
        for (j, (_, p)) in one_of_each().into_iter().enumerate() {
            let expected = if i == j { Ok(()) } else { refused_copy(&refused) };
            assert_eq!(a.validate_partialvalue("a", &p), expected);
            let v = Value::new(p);
            assert_eq!(a.validate_value("a", &v), expected);
            assert_eq!(a.validate_ava("a", &set(vec![v])), expected);
        }
    }
}

fn refused_copy(r: &Result<(), SchemaError>) -> Result<(), SchemaError> {
    match r {
        Err(SchemaError::InvalidAttributeSyntax(a)) => {
            Err(SchemaError::InvalidAttributeSyntax(a.clone()))
        }
        _ => panic!("another outcome was expected"),
    }
}

#[test]
fn a_value_that_is_not_whole_is_refused() {
    let a = attribute("a", true, SyntaxType::CREDENTIAL);
    let broken = Value {
        partial: PartialValue::Cred("primary".to_string()),
        valid: false,
    };
    assert_eq!(
        a.validate_value("b", &broken),
        Err(SchemaError::InvalidAttributeSyntax("b".to_string()))
    );
    assert_eq!(a.validate_partialvalue("b", &broken.partial), Ok(()));
    assert_eq!(a.validate_ava("b", &set(vec![broken])), Ok(()));
    assert_eq!(a.validate_ava("b", &ValueSet::new()), Ok(()));
}

#[test]
fn a_set_holds_a_value_once() {
    let mut s = ValueSet::new();
    assert!(s.insert(Value::new_iutf8("Test")));
    assert!(!s.insert(Value::new_iutf8("tEST")));
    assert!(s.insert(Value::new_utf8s("test")));
    assert!(s.insert(Value::new(PartialValue::Uuid(Uuid::from_u128(1)))));
    assert!(!s.insert(Value::new(PartialValue::Uuid(Uuid::from_u128(1)))));
    assert!(s.insert(Value::new(PartialValue::Uuid(Uuid::from_u128(2)))));
    assert_eq!(s.len(), 4);
    assert!(s.contains(&PartialValue::Iutf8("test".to_string())));
    assert!(!s.contains(&PartialValue::Iname("test".to_string())));

    // So a single valued attribute takes one value twice.
    let a = attribute("a", false, SyntaxType::UTF8STRING_INSENSITIVE);
    let twice = set(vec![Value::new_iutf8("x"), Value::new_iutf8("X")]);
    assert_eq!(a.validate_ava("a", &twice), Ok(()));
}

#[test]
fn names_of_syntaxes_and_indexes_are_read_in_any_case() {
    assert_eq!(SyntaxType::try_from("utf8string"), Ok(SyntaxType::UTF8STRING));
    assert_eq!(SyntaxType::try_from("Json_Filter"), Ok(SyntaxType::JSON_FILTER));
    assert_eq!(SyntaxType::try_from("NSUNIQUEID"), Ok(SyntaxType::NSUNIQUEID));
    assert_eq!(SyntaxType::try_from("TNEOUNTUH"), Err(()));
    assert_eq!(IndexType::try_from("equality"), Ok(IndexType::EQUALITY));
    assert_eq!(IndexType::try_from("SubString"), Ok(IndexType::SUBSTRING));
    // The long s is an S in upper case.
    assert_eq!(
        IndexType::try_from("pre\u{17f}ence"),
        Ok(IndexType::PRESENCE)
    );
    assert_eq!(IndexType::try_from("NTEHNOU"), Err(()));
    assert_eq!(IndexType::try_from(""), Err(()));
}

#[test]
fn what_the_definition_of_an_attribute_lacks_is_named() {
    let all: Vec<(&str, &[&str])> = vec![
        ("class", &["attributetype"]),
        ("attributename", &["a"]),
        ("description", &["about a"]),
        ("multivalue", &["true"]),
        ("unique", &["false"]),
        ("index", &["presence", "EQUALITY"]),
        ("syntax", &["BOOLEAN"]),
        ("phantom", &["true"]),
    ];
    let a = SchemaAttribute::try_from(&sealed(&all)).unwrap();
    assert_eq!(a.name, "a");
    assert_eq!(a.uuid, Uuid::from_u128(7));
    assert_eq!(a.description, "about a");
    assert_eq!((a.multivalue, a.unique, a.phantom), (true, false, true));
    assert_eq!(a.index, vec![IndexType::EQUALITY, IndexType::PRESENCE]);
    assert_eq!(a.syntax, SyntaxType::BOOLEAN);

    let expected = vec![
        "missing attributetype",
        "missing attributename",
        "missing description",
        "missing multivalue",
        "missing unique",
    ];
    for (i, text) in expected.into_iter().enumerate() {
        let mut some = all.clone();
        some.remove(i);
        assert_eq!(reason(SchemaAttribute::try_from(&sealed(&some))), text);
    }
    let mut some = all.clone();
    some.remove(6);
    assert_eq!(
        reason(SchemaAttribute::try_from(&sealed(&some))),
        "missing syntax"
    );
    let mut some = all.clone();
    some[5] = ("index", &["EQUALITY", "NTEHNOU"]);
    assert_eq!(
        reason(SchemaAttribute::try_from(&sealed(&some))),
        "Invalid index"
    );
    let mut some = all.clone();
    some[2] = ("description", &["one", "two"]);
    assert_eq!(
        reason(SchemaAttribute::try_from(&sealed(&some))),
        "missing description"
    );
    let mut some = all.clone();
    some.remove(7);
    some.remove(5);
    let a = SchemaAttribute::try_from(&sealed(&some)).unwrap();
    assert!(!a.phantom && a.index.is_empty());
}

#[test]
fn what_the_definition_of_a_class_lacks_is_named() {
    let all: Vec<(&str, &[&str])> = vec![
        ("class", &["classtype"]),
        ("classname", &["c"]),
        ("description", &["about c"]),
        ("may", &["y", "x"]),
        ("systemmust", &["z"]),
    ];
    let c = SchemaClass::try_from(&sealed(&all)).unwrap();
    assert_eq!(c.name, "c");
    assert_eq!(c.uuid, Uuid::from_u128(7));
    assert_eq!(c.may, vec!["x", "y"]);
    assert_eq!(c.systemmust, vec!["z"]);
    assert!(c.must.is_empty() && c.systemmay.is_empty());
    let expected = vec![
        "missing classtype",
        "missing classname",
        "missing description",
    ];
    for (i, text) in expected.into_iter().enumerate() {
        let mut some = all.clone();
        some.remove(i);
        assert_eq!(reason(SchemaClass::try_from(&sealed(&some))), text);
    }
}

fn two_classes() -> Schema {
    let mut schema = new_schema();
    let mut txn = schema.write();
    let mut ghost = attribute("g", true, SyntaxType::UTF8STRING);
    ghost.phantom = true;
    assert!(txn
        .update_attributes(vec![
            attribute("class", true, SyntaxType::UTF8STRING_INSENSITIVE),
            attribute("uuid", false, SyntaxType::UUID),
            attribute("x", true, SyntaxType::UTF8STRING),
            attribute("y", true, SyntaxType::UTF8STRING),
            ghost,
        ])
        .is_ok());
    assert!(txn
        .update_classes(vec![
            class("one", &["x"], &["class", "uuid"]),
            class("two", &[], &["x", "y", "class", "uuid"]),
            class("bad", &[], &["nowhere", "class", "uuid"]),
            class("ghostly", &[], &["g", "class", "uuid"]),
        ])
        .is_ok());
    assert!(txn.commit().is_ok());
    schema
}

#[test]
fn classes_are_additive() {
    let schema = two_classes();
    let txn = schema.read();
    let id: (&str, &[&str]) = ("uuid", &["db237e8a-0079-4b8c-8a56-593b22aa44d1"]);
    let one: (&str, &[&str]) = ("class", &["one"]);
    let two: (&str, &[&str]) = ("class", &["two"]);
    let both: (&str, &[&str]) = ("class", &["two", "one"]);
    let x: (&str, &[&str]) = ("x", &["1"]);
    let y: (&str, &[&str]) = ("y", &["2"]);

    let verdict = |attrs: &[(&str, &[&str])]| entry(attrs).validate(&txn).map(|_| ());
    let missing_x = || Err(SchemaError::MissingMustAttribute(vec!["x".to_string()]));
    assert_eq!(verdict(&[id, one, x]), Ok(()));
    assert_eq!(verdict(&[id, one]), missing_x());
    assert_eq!(
        verdict(&[id, one, x, y]),
        Err(SchemaError::InvalidAttribute("y".to_string()))
    );
    assert_eq!(verdict(&[id, two]), Ok(()));
    assert_eq!(verdict(&[id, two, y]), Ok(()));
    // What one demands is demanded though two only allows it.
    assert_eq!(verdict(&[id, both, y]), missing_x());
    assert_eq!(verdict(&[id, both, x, y]), Ok(()));
}

#[test]
fn an_entry_is_refused_for_the_faults_of_its_classes() {
    let schema = two_classes();
    let txn = schema.read();
    let id: (&str, &[&str]) = ("uuid", &["db237e8a-0079-4b8c-8a56-593b22aa44d1"]);
    let verdict = |attrs: &[(&str, &[&str])]| entry(attrs).validate(&txn).map(|_| ());
    assert_eq!(
        verdict(&[id, ("class", &["bad"])]),
        Err(SchemaError::Corrupted)
    );
    assert_eq!(
        verdict(&[id, ("class", &["ghostly"]), ("g", &["boo"])]),
        Err(SchemaError::PhantomAttribute("g".to_string()))
    );
    assert_eq!(
        verdict(&[id, ("class", &["zz", "two", "yy"])]),
        Err(SchemaError::InvalidClass(vec![
            "yy".to_string(),
            "zz".to_string()
        ]))
    );
    assert_eq!(
        verdict(&[("uuid", &["no uuid"]), ("class", &["two"])]),
        Err(SchemaError::InvalidAttributeSyntax("uuid".to_string()))
    );
}

#[test]
fn a_validated_filter_stays_as_it_is() {
    let schema = new_schema();
    let txn = schema.read();
    let f = Filter::Or(vec![
        Filter::Pres("NAME".to_string()),
        Filter::And(vec![Filter::Sub(
            "Description".to_string(),
            PartialValue::Utf8("Some".to_string()),
        )]),
    ]);
    let g = f.validate(&txn).unwrap();
    assert_eq!(
        g,
        Filter::Or(vec![
            Filter::Pres("name".to_string()),
            Filter::And(vec![Filter::Sub(
                "description".to_string(),
                PartialValue::Utf8("Some".to_string()),
            )]),
        ])
    );
    assert_eq!(g.validate(&txn), Ok(f.validate(&txn).unwrap()));
    assert_eq!(
        Filter::And(vec![]).validate(&txn),
        Err(SchemaError::EmptyFilter)
    );
    assert_eq!(
        Filter::Pres("Nothing".to_string()).validate(&txn),
        Err(SchemaError::InvalidAttribute("nothing".to_string()))
    );
}

#[test]
fn a_read_sees_nothing_of_an_open_transaction() {
    let mut schema = new_schema();
    let first = schema.read();
    let mut txn = schema.write();
    assert!(txn
        .update_attributes(vec![attribute("a", true, SyntaxType::REFERENCE_UUID)])
        .is_ok());
    assert!(txn.update_classes(vec![class("c", &["a"], &[])]).is_ok());
    let second = txn.read_committed();
    for r in vec![&first, &second] {
        assert_eq!(r.get_attributes().len(), 36);
        assert_eq!(r.get_classes().len(), 14);
        assert!(r.get_reference_types().is_empty());
        assert!(r.get_attributes_unique().is_empty());
    }
    assert_eq!(names(first.get_attributes()), names(second.get_attributes()));
    assert_eq!(names(first.get_classes()), names(second.get_classes()));
    assert_eq!(names(txn.get_classes()), vec!["c"]);
    assert!(txn.commit().is_ok());
    assert_eq!(names(schema.read().get_classes()), vec!["c"]);
    // What was handed out meanwhile stays as it was.
    assert_eq!(second.get_classes().len(), 14);
}

#[test]
fn definitions_hold_names_in_lower_case() {
    let mut schema = new_schema();
    let mut txn = schema.write();
    assert!(txn
        .update_attributes(vec![attribute("Foo", true, SyntaxType::UTF8STRING)])
        .is_ok());
    assert!(txn.update_classes(vec![class("Bar", &["Foo"], &[])]).is_ok());
    let entries = txn.to_entries();
    assert_eq!(entries.len(), 2);
    assert!(entries[0].attribute_value_pres("attributename", &PartialValue::new_iutf8("FOO")));
    assert!(entries[1].attribute_value_pres("classname", &PartialValue::new_iutf8("BAR")));
    assert!(entries[1].attribute_value_pres("must", &PartialValue::new_iutf8("FOO")));
    assert!(entries[0]
        .attribute_value_pres("description", &PartialValue::Utf8("about Foo".to_string())));
}

#[test]
fn to_normalise_twice_is_to_normalise_once() {
    let schema = new_schema();
    let txn = schema.read();
    for name in vec!["nonClAsS", "Class", "class", "", "A_1-z"] {
        let once = txn.normalise_attr_name(name);
        assert_eq!(txn.normalise_attr_name(&once), once);
    }
    assert_eq!(txn.normalise_attr_name("nonClAsS"), "nonclass");
}

#[test]
fn values_are_accepted_one_by_one() {
    let one = attribute("a", false, SyntaxType::UTF8STRING);
    let many = attribute("a", true, SyntaxType::UTF8STRING);
    let good = || vec![Value::new_utf8s("x"), Value::new_utf8s("y")];
    assert!(many.validate_ava("a", &set(good())).is_ok());
    for v in good() {
        assert!(one.validate_ava("a", &set(vec![v])).is_ok());
    }
    assert!(one.validate_ava("a", &set(good())).is_err());
    let bad = vec![Value::new_utf8s("x"), Value::new_bool(true)];
    assert!(many.validate_ava("a", &set(bad)).is_err());
    assert!(many
        .validate_ava("a", &set(vec![Value::new_bool(true)]))
        .is_err());
}

#[test]
fn a_consistent_schema_is_never_corrupted() {
    let schema = new_schema();
    let txn = schema.read();
    assert!(txn.validate().is_empty());
    let id: (&str, &[&str]) = ("uuid", &["db237e8a-0079-4b8c-8a56-593b22aa44d1"]);
    for name in names(txn.get_classes()) {
        let r = entry(&[id, ("class", &[name.as_str()])]).validate(&txn);
        assert!(!matches!(r, Err(SchemaError::Corrupted)));
    }
}

fn report(classes: Vec<SchemaClass>) -> Vec<String> {
    let mut schema = new_schema();
    let mut txn = schema.write();
    assert!(txn.update_classes(classes).is_ok());
    let mut r: Vec<String> = txn
        .validate()
        .into_iter()
        .map(|e| format!("{:?}", e))
        .collect();
    r.sort();
    r
}

#[test]
fn reports_add_up() {
    let one = || class("one", &["claim", "class"], &["nowhere", "claim"]);
    let two = || class("two", &["elsewhere"], &["dn"]);
    let mut parts = report(vec![one()]);
    assert_eq!(parts.len(), 3);
    parts.append(&mut report(vec![two()]));
    parts.sort();
    assert_eq!(parts.len(), 5);
    assert_eq!(report(vec![one(), two()]), parts);
    assert_eq!(report(vec![two(), one()]), parts);
}

#[test]
fn a_set_stands_in_ascending_order() {
    let texts = |s: &ValueSet| -> Vec<String> {
        (0..s.len())
            .map(|i| s.get(i).to_str().unwrap().clone())
            .collect()
    };
    let given = vec!["b", "", "ab", "a", "\u{e9}", "z", "a_", "aB"];
    let forth = set(given.iter().map(|t| Value::new_utf8s(t)).collect());
    let back = set(given.iter().rev().map(|t| Value::new_utf8s(t)).collect());
    assert_eq!(
        texts(&forth),
        vec!["", "a", "aB", "a_", "ab", "b", "z", "\u{e9}"]
    );
    assert_eq!(texts(&forth), texts(&back));

    // Identifiers stand in the order of their numbers, that of their bytes.
    let id = |n: u128| Value::new(PartialValue::Uuid(Uuid::from_u128(n)));
    let s = set(vec![id(1 << 120), id(2), id(256), id(1)]);
    let found: Vec<String> = (0..s.len())
        .map(|i| format!("{:?}", s.get(i).partial))
        .collect();
    let expected: Vec<String> = vec![1, 2, 256, 1 << 120]
        .into_iter()
        .map(|n: u128| format!("{:?}", PartialValue::Uuid(Uuid::from_u128(n))))
        .collect();
    assert_eq!(found, expected);
    assert!(Uuid::from_u128(256) < Uuid::from_u128(1 << 120));
}

#[test]
fn kinds_of_values_stand_in_order() {
    // Of kinds put in backwards, and of two values of some.
    let spn = |a: &str, b: &str| PartialValue::Spn(a.to_string(), b.to_string());
    let expected = || {
        vec![
            PartialValue::Utf8("z".to_string()),
            PartialValue::Iutf8("a".to_string()),
            PartialValue::Bool(false),
            PartialValue::Bool(true),
            PartialValue::Syntax(SyntaxType::UUID),
            PartialValue::Syntax(SyntaxType::CID),
            PartialValue::Index(IndexType::EQUALITY),
            PartialValue::Index(IndexType::SUBSTRING),
            PartialValue::RadiusCred,
            spn("a", "z"),
            spn("b", "a"),
            spn("b", "b"),
            PartialValue::Uint32(3),
            PartialValue::Uint32(20),
        ]
    };
    let s = set(expected().into_iter().rev().map(Value::new).collect());
    assert_eq!(s.len(), 14);
    for (i, p) in expected().into_iter().enumerate() {
        assert_eq!(s.get(i).partial, p);
    }
}

#[test]
fn an_entry_does_not_depend_on_the_order_of_its_making() {
    let schema = new_schema();
    let txn = schema.read();
    let id: (&str, &[&str]) = ("uuid", &["db237e8a-0079-4b8c-8a56-593b22aa44d1"]);
    let kind: (&str, &[&str]) = ("class", &["extensibleobject"]);
    let x: (&str, &[&str]) = ("zebra", &["1"]);
    let y: (&str, &[&str]) = ("aardvark", &["2"]);
    let refused = || Err(SchemaError::InvalidAttribute("aardvark".to_string()));
    assert_eq!(entry(&[id, kind, x, y]).validate(&txn).map(|_| ()), refused());
    assert_eq!(entry(&[y, x, kind, id]).validate(&txn).map(|_| ()), refused());
    let e = entry(&[id, x, kind, y]);
    let found: Vec<&str> = (0..e.len()).map(|i| e.name_at(i).as_str()).collect();
    assert_eq!(found, vec!["aardvark", "class", "uuid", "zebra"]);
}
