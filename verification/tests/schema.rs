use kanidm_schema::{
    ConsistencyError, Entry, Filter, IndexType, PartialValue, Schema, SchemaAttribute,
    SchemaClass, SchemaError, SchemaTransaction, SchemaUuids, SealedEntry, SyntaxType, Value,
    ValueSet,
};
use uuid::Uuid;

fn ids() -> SchemaUuids {
    SchemaUuids {
        schema_attr_class: Uuid::from_u128(0xffff_0000 + 0),
        schema_attr_uuid: Uuid::from_u128(0xffff_0000 + 1),
        schema_attr_last_mod_cid: Uuid::from_u128(0xffff_0000 + 2),
        schema_attr_name: Uuid::from_u128(0xffff_0000 + 3),
        schema_attr_spn: Uuid::from_u128(0xffff_0000 + 4),
        schema_attr_attributename: Uuid::from_u128(0xffff_0000 + 5),
        schema_attr_classname: Uuid::from_u128(0xffff_0000 + 6),
        schema_attr_description: Uuid::from_u128(0xffff_0000 + 7),
        schema_attr_multivalue: Uuid::from_u128(0xffff_0000 + 8),
        schema_attr_phantom: Uuid::from_u128(0xffff_0000 + 9),
        schema_attr_unique: Uuid::from_u128(0xffff_0000 + 10),
        schema_attr_index: Uuid::from_u128(0xffff_0000 + 11),
        schema_attr_syntax: Uuid::from_u128(0xffff_0000 + 12),
        schema_attr_systemmay: Uuid::from_u128(0xffff_0000 + 13),
        schema_attr_may: Uuid::from_u128(0xffff_0000 + 14),
        schema_attr_systemmust: Uuid::from_u128(0xffff_0000 + 15),
        schema_attr_must: Uuid::from_u128(0xffff_0000 + 16),
        schema_attr_acp_enable: Uuid::from_u128(0xffff_0000 + 17),
        schema_attr_acp_receiver: Uuid::from_u128(0xffff_0000 + 18),
        schema_attr_acp_targetscope: Uuid::from_u128(0xffff_0000 + 19),
        schema_attr_acp_search_attr: Uuid::from_u128(0xffff_0000 + 20),
        schema_attr_acp_create_class: Uuid::from_u128(0xffff_0000 + 21),
        schema_attr_acp_create_attr: Uuid::from_u128(0xffff_0000 + 22),
        schema_attr_acp_modify_removedattr: Uuid::from_u128(0xffff_0000 + 23),
        schema_attr_acp_modify_presentattr: Uuid::from_u128(0xffff_0000 + 24),
        schema_attr_acp_modify_class: Uuid::from_u128(0xffff_0000 + 25),
        schema_attr_memberof: Uuid::from_u128(0xffff_0000 + 26),
        schema_attr_directmemberof: Uuid::from_u128(0xffff_0000 + 27),
        schema_attr_member: Uuid::from_u128(0xffff_0000 + 28),
        schema_attr_version: Uuid::from_u128(0xffff_0000 + 29),
        schema_attr_domain: Uuid::from_u128(0xffff_0000 + 30),
        schema_attr_claim: Uuid::from_u128(0xffff_0000 + 31),
        schema_attr_password_import: Uuid::from_u128(0xffff_0000 + 32),
        schema_attr_dn: Uuid::from_u128(0xffff_0000 + 33),
        schema_attr_entryuuid: Uuid::from_u128(0xffff_0000 + 34),
        schema_attr_objectclass: Uuid::from_u128(0xffff_0000 + 35),
        schema_class_attributetype: Uuid::from_u128(0xffff_0000 + 36),
        schema_class_classtype: Uuid::from_u128(0xffff_0000 + 37),
        schema_class_object: Uuid::from_u128(0xffff_0000 + 38),
        schema_class_memberof: Uuid::from_u128(0xffff_0000 + 39),
        schema_class_extensibleobject: Uuid::from_u128(0xffff_0000 + 40),
        schema_class_recycled: Uuid::from_u128(0xffff_0000 + 41),
        schema_class_tombstone: Uuid::from_u128(0xffff_0000 + 42),
        schema_class_system_info: Uuid::from_u128(0xffff_0000 + 43),
        schema_class_access_control_profile: Uuid::from_u128(0xffff_0000 + 44),
        schema_class_access_control_search: Uuid::from_u128(0xffff_0000 + 45),
        schema_class_access_control_delete: Uuid::from_u128(0xffff_0000 + 46),
        schema_class_access_control_modify: Uuid::from_u128(0xffff_0000 + 47),
        schema_class_access_control_create: Uuid::from_u128(0xffff_0000 + 48),
        schema_class_system: Uuid::from_u128(0xffff_0000 + 49),
    }
}

fn new_schema() -> Schema {
    match Schema::new(&ids()) {
        Ok(s) => s,
        Err(_) => panic!("failed to create schema"),
    }
}

/// A value as the server reads it from text: of the kind that the attribute
/// takes, or plain text if it cannot be read as that kind.
fn value(attr: &str, v: &str) -> Value {
    let text = || Value::new(PartialValue::Utf8(v.to_string()));
    match attr {
        "class" | "attributename" | "classname" | "systemmay" | "may" | "systemmust" | "must" => {
            Value::new_iutf8(v)
        }
        "name" => Value::new(PartialValue::Iname(v.to_lowercase())),
        "uuid" => match Uuid::parse_str(v) {
            Ok(u) => Value::new(PartialValue::Uuid(u)),
            Err(_) => text(),
        },
        "multivalue" | "unique" | "phantom" => match v {
            "true" => Value::new_bool(true),
            "false" => Value::new_bool(false),
            _ => text(),
        },
        "syntax" => Value::new_syntaxs(v).unwrap_or_else(text),
        "index" => Value::new_indexs(v).unwrap_or_else(text),
        _ => text(),
    }
}

fn entry(attrs: &[(&str, &[&str])]) -> Entry {
    let mut e = Entry::new();
    for (attr, values) in attrs {
        let name = attr.to_lowercase();
        for v in values.iter() {
            e.add_ava(&name, value(&name, v));
        }
    }
    e
}

/// An entry about to be created: it knows the change that creates it.
fn new_entry(attrs: &[(&str, &[&str])]) -> Entry {
    let mut e = entry(attrs);
    e.add_ava("last_modified_cid", Value::new(PartialValue::Cid(0)));
    e
}

fn sealed(attrs: &[(&str, &[&str])]) -> SealedEntry {
    SealedEntry {
        uuid: Uuid::parse_str("66c68b2f-d02c-4243-8013-7946e40fe321").unwrap(),
        entry: entry(attrs),
    }
}

fn content(e: &Entry) -> Vec<(String, Vec<PartialValue>)> {
    (0..e.len())
        .map(|i| {
            let vs = e.values_at(i);
            let values = (0..vs.len()).map(|j| vs.get(j).partial.clone()).collect();
            (e.name_at(i).clone(), values)
        })
        .collect()
}

fn set(values: Vec<Value>) -> ValueSet {
    let mut r = ValueSet::new();
    for v in values {
        r.insert(v);
    }
    r
}

fn outcome(r: Result<Entry, SchemaError>) -> Result<(), SchemaError> {
    r.map(|_| ())
}

#[test]
fn test_schema_attribute_from_entry() {
    assert!(SchemaAttribute::try_from(&sealed(&[
        ("class", &["object", "attributetype"]),
        ("attributename", &["schema_attr_test"]),
        ("unique", &["false"]),
        ("uuid", &["66c68b2f-d02c-4243-8013-7946e40fe321"]),
    ])).is_err());

    assert!(SchemaAttribute::try_from(&sealed(&[
        ("class", &["object", "attributetype"]),
        ("attributename", &["schema_attr_test"]),
        ("uuid", &["66c68b2f-d02c-4243-8013-7946e40fe321"]),
        ("multivalue", &["false"]),
        ("unique", &["false"]),
        ("index", &["EQUALITY"]),
        ("syntax", &["UTF8STRING"]),
    ])).is_err());

    assert!(SchemaAttribute::try_from(&sealed(&[
        ("class", &["object", "attributetype"]),
        ("attributename", &["schema_attr_test"]),
        ("uuid", &["66c68b2f-d02c-4243-8013-7946e40fe321"]),
        ("description", &["Test attr parsing"]),
        ("multivalue", &["htouaoeu"]),
        ("unique", &["false"]),
        ("index", &["EQUALITY"]),
        ("syntax", &["UTF8STRING"]),
    ])).is_err());

    assert!(SchemaAttribute::try_from(&sealed(&[
        ("class", &["object", "attributetype"]),
        ("attributename", &["schema_attr_test"]),
        ("uuid", &["66c68b2f-d02c-4243-8013-7946e40fe321"]),
        ("description", &["Test attr parsing"]),
        ("multivalue", &["false"]),
        ("unique", &["false"]),
        ("index", &["NTEHNOU"]),
        ("syntax", &["UTF8STRING"]),
    ])).is_err());

    assert!(SchemaAttribute::try_from(&sealed(&[
        ("class", &["object", "attributetype"]),
        ("attributename", &["schema_attr_test"]),
        ("uuid", &["66c68b2f-d02c-4243-8013-7946e40fe321"]),
        ("description", &["Test attr parsing"]),
        ("multivalue", &["false"]),
        ("unique", &["false"]),
        ("index", &["EQUALITY"]),
        ("syntax", &["TNEOUNTUH"]),
    ])).is_err());

    // Index is allowed to be empty
    assert!(SchemaAttribute::try_from(&sealed(&[
        ("class", &["object", "attributetype"]),
        ("attributename", &["schema_attr_test"]),
        ("uuid", &["66c68b2f-d02c-4243-8013-7946e40fe321"]),
        ("description", &["Test attr parsing"]),
        ("multivalue", &["false"]),
        ("unique", &["false"]),
        ("syntax", &["UTF8STRING"]),
    ])).is_ok());

    // Index present
    assert!(SchemaAttribute::try_from(&sealed(&[
        ("class", &["object", "attributetype"]),
        ("attributename", &["schema_attr_test"]),
        ("uuid", &["66c68b2f-d02c-4243-8013-7946e40fe321"]),
        ("description", &["Test attr parsing"]),
        ("multivalue", &["false"]),
        ("unique", &["false"]),
        ("index", &["EQUALITY"]),
        ("syntax", &["UTF8STRING"]),
    ])).is_ok());
}

#[test]
fn test_schema_class_from_entry() {
    assert!(SchemaClass::try_from(&sealed(&[
        ("class", &["object", "classtype"]),
        ("classname", &["schema_class_test"]),
        ("uuid", &["66c68b2f-d02c-4243-8013-7946e40fe321"]),
    ])).is_err());

    assert!(SchemaClass::try_from(&sealed(&[
        ("class", &["object"]),
        ("classname", &["schema_class_test"]),
        ("description", &["class test"]),
        ("uuid", &["66c68b2f-d02c-4243-8013-7946e40fe321"]),
    ])).is_err());

    // Classes can be valid with no attributes provided.
    assert!(SchemaClass::try_from(&sealed(&[
        ("class", &["object", "classtype"]),
        ("classname", &["schema_class_test"]),
        ("description", &["class test"]),
        ("uuid", &["66c68b2f-d02c-4243-8013-7946e40fe321"]),
    ])).is_ok());

    // Classes with various may/must
    assert!(SchemaClass::try_from(&sealed(&[
        ("class", &["object", "classtype"]),
        ("classname", &["schema_class_test"]),
        ("description", &["class test"]),
        ("uuid", &["66c68b2f-d02c-4243-8013-7946e40fe321"]),
        ("systemmust", &["d"]),
    ])).is_ok());

    assert!(SchemaClass::try_from(&sealed(&[
        ("class", &["object", "classtype"]),
        ("classname", &["schema_class_test"]),
        ("description", &["class test"]),
        ("uuid", &["66c68b2f-d02c-4243-8013-7946e40fe321"]),
        ("systemmay", &["c"]),
    ])).is_ok());

    assert!(SchemaClass::try_from(&sealed(&[
        ("class", &["object", "classtype"]),
        ("classname", &["schema_class_test"]),
        ("description", &["class test"]),
        ("uuid", &["66c68b2f-d02c-4243-8013-7946e40fe321"]),
        ("may", &["a"]),
        ("must", &["b"]),
    ])).is_ok());

    assert!(SchemaClass::try_from(&sealed(&[
        ("class", &["object", "classtype"]),
        ("classname", &["schema_class_test"]),
        ("description", &["class test"]),
        ("uuid", &["66c68b2f-d02c-4243-8013-7946e40fe321"]),
        ("may", &["a"]),
        ("must", &["b"]),
        ("systemmay", &["c"]),
        ("systemmust", &["d"]),
    ])).is_ok());
}

#[test]
fn test_schema_attribute_simple() {
    // Test single value string
    let single_value_string = SchemaAttribute {
        name: String::from("single_value"),
        uuid: Uuid::new_v4(),
        description: String::from(""),
        multivalue: false,
        unique: false,
        phantom: false,
        index: vec![IndexType::EQUALITY],
        syntax: SyntaxType::UTF8STRING_INSENSITIVE,
    };

    let r1 =
        single_value_string.validate_ava("single_value", &set(vec![Value::new_iutf8("test")]));
    assert_eq!(r1, Ok(()));

    let r2 = single_value_string.validate_ava(
        "single_value",
        &set(vec![Value::new_iutf8("test1"), Value::new_iutf8("test2")]),
    );
    assert_eq!(
        r2,
        Err(SchemaError::InvalidAttributeSyntax(
            "single_value".to_string()
        ))
    );

    // test multivalue string, boolean
    let multi_value_string = SchemaAttribute {
        name: String::from("mv_string"),
        uuid: Uuid::new_v4(),
        description: String::from(""),
        multivalue: true,
        unique: false,
        phantom: false,
        index: vec![IndexType::EQUALITY],
        syntax: SyntaxType::UTF8STRING,
    };

    let r5 = multi_value_string.validate_ava(
        "mv_string",
        &set(vec![Value::new_utf8s("test1"), Value::new_utf8s("test2")]),
    );
    assert_eq!(r5, Ok(()));

    let multi_value_boolean = SchemaAttribute {
        name: String::from("mv_bool"),
        uuid: Uuid::new_v4(),
        description: String::from(""),
        multivalue: true,
        unique: false,
        phantom: false,
        index: vec![IndexType::EQUALITY],
        syntax: SyntaxType::BOOLEAN,
    };

    let r3 = multi_value_boolean.validate_ava(
        "mv_bool",
        &set(vec![
            Value::new_bool(true),
            Value::new_iutf8("test1"),
            Value::new_iutf8("test2"),
        ]),
    );
    assert_eq!(
        r3,
        Err(SchemaError::InvalidAttributeSyntax("mv_bool".to_string()))
    );

    let r4 = multi_value_boolean.validate_ava(
        "mv_bool",
        &set(vec![Value::new_bool(true), Value::new_bool(false)]),
    );
    assert_eq!(r4, Ok(()));

    // syntax_id and index_type values
    let single_value_syntax = SchemaAttribute {
        name: String::from("sv_syntax"),
        uuid: Uuid::new_v4(),
        description: String::from(""),
        multivalue: false,
        unique: false,
        phantom: false,
        index: vec![IndexType::EQUALITY],
        syntax: SyntaxType::SYNTAX_ID,
    };

    let r6 = single_value_syntax.validate_ava(
        "sv_syntax",
        &set(vec![Value::new_syntaxs("UTF8STRING").unwrap()]),
    );
    assert_eq!(r6, Ok(()));

    let r7 = single_value_syntax
        .validate_ava("sv_syntax", &set(vec![Value::new_utf8s("thaeountaheu")]));
    assert_eq!(
        r7,
        Err(SchemaError::InvalidAttributeSyntax("sv_syntax".to_string()))
    );

    let single_value_index = SchemaAttribute {
        name: String::from("sv_index"),
        uuid: Uuid::new_v4(),
        description: String::from(""),
        multivalue: false,
        unique: false,
        phantom: false,
        index: vec![IndexType::EQUALITY],
        syntax: SyntaxType::INDEX_ID,
    };

    let r8 = single_value_index.validate_ava(
        "sv_index",
        &set(vec![Value::new_indexs("EQUALITY").unwrap()]),
    );
    assert_eq!(r8, Ok(()));

    let r9 = single_value_index
        .validate_ava("sv_index", &set(vec![Value::new_utf8s("thaeountaheu")]));
    assert_eq!(
        r9,
        Err(SchemaError::InvalidAttributeSyntax("sv_index".to_string()))
    );
}

#[test]
fn test_schema_simple() {
    let schema = new_schema();
    let schema_ro = schema.read();
    let r: Result<Vec<()>, ConsistencyError> = schema_ro.validate().into_iter().collect();
    assert!(r.is_ok());
}

#[test]
fn test_schema_entries() {
    // Given an entry, assert it's schema is valid
    let schema_outer = new_schema();
    let schema = schema_outer.read();

    let e_no_uuid = new_entry(&[]);
    assert_eq!(
        outcome(e_no_uuid.validate(&schema)),
        Err(SchemaError::MissingMustAttribute(vec!["uuid".to_string()]))
    );

    let e_no_class = new_entry(&[("uuid", &["db237e8a-0079-4b8c-8a56-593b22aa44d1"])]);
    assert_eq!(
        outcome(e_no_class.validate(&schema)),
        Err(SchemaError::NoClassFound)
    );

    let e_bad_class = new_entry(&[
        ("uuid", &["db237e8a-0079-4b8c-8a56-593b22aa44d1"]),
        ("class", &["zzzzzz"]),
    ]);
    assert_eq!(
        outcome(e_bad_class.validate(&schema)),
        Err(SchemaError::InvalidClass(vec!["zzzzzz".to_string()]))
    );

    let e_attr_invalid = new_entry(&[
        ("uuid", &["db237e8a-0079-4b8c-8a56-593b22aa44d1"]),
        ("class", &["object", "attributetype"]),
    ]);
    let res = e_attr_invalid.validate(&schema);
    assert!(match res {
        Err(SchemaError::MissingMustAttribute(_)) => true,
        _ => false,
    });

    let e_attr_invalid_may = new_entry(&[
        ("class", &["object", "attributetype"]),
        ("attributename", &["testattr"]),
        ("description", &["testattr"]),
        ("multivalue", &["false"]),
        ("unique", &["false"]),
        ("syntax", &["UTF8STRING"]),
        ("uuid", &["db237e8a-0079-4b8c-8a56-593b22aa44d1"]),
        ("zzzzz", &["zzzz"]),
    ]);
    assert_eq!(
        outcome(e_attr_invalid_may.validate(&schema)),
        Err(SchemaError::InvalidAttribute("zzzzz".to_string()))
    );

    let e_attr_invalid_syn = new_entry(&[
        ("class", &["object", "attributetype"]),
        ("attributename", &["testattr"]),
        ("description", &["testattr"]),
        ("multivalue", &["zzzzz"]),
        ("unique", &["false"]),
        ("uuid", &["db237e8a-0079-4b8c-8a56-593b22aa44d1"]),
        ("syntax", &["UTF8STRING"]),
    ]);
    assert_eq!(
        outcome(e_attr_invalid_syn.validate(&schema)),
        Err(SchemaError::InvalidAttributeSyntax(
            "multivalue".to_string()
        ))
    );

    // You may not have the phantom.
    let e_phantom = new_entry(&[
        ("class", &["object", "attributetype"]),
        ("attributename", &["testattr"]),
        ("description", &["testattr"]),
        ("multivalue", &["true"]),
        ("unique", &["false"]),
        ("uuid", &["db237e8a-0079-4b8c-8a56-593b22aa44d1"]),
        ("syntax", &["UTF8STRING"]),
        ("password_import", &["password"]),
    ]);
    assert!(e_phantom.validate(&schema).is_err());

    let e_ok = new_entry(&[
        ("class", &["object", "attributetype"]),
        ("attributename", &["testattr"]),
        ("description", &["testattr"]),
        ("multivalue", &["true"]),
        ("unique", &["false"]),
        ("uuid", &["db237e8a-0079-4b8c-8a56-593b22aa44d1"]),
        ("syntax", &["UTF8STRING"]),
    ]);
    assert!(e_ok.validate(&schema).is_ok());
}

#[test]
fn test_schema_entry_validate() {
    // Check that entries can be normalised and validated sanely
    let mut schema_outer = new_schema();
    let schema = schema_outer.write();

    // Check syntax to upper
    // check index to upper
    // insense to lower
    // attr name to lower
    let e_test = new_entry(&[
        ("class", &["extensibleobject"]),
        ("name", &["TestPerson"]),
        ("syntax", &["utf8string"]),
        ("UUID", &["db237e8a-0079-4b8c-8a56-593b22aa44d1"]),
        ("InDeX", &["equality"]),
    ]);

    let e_expect = new_entry(&[
        ("class", &["extensibleobject"]),
        ("name", &["testperson"]),
        ("syntax", &["UTF8STRING"]),
        ("uuid", &["db237e8a-0079-4b8c-8a56-593b22aa44d1"]),
        ("index", &["EQUALITY"]),
    ]);

    let e_valid = e_test.validate(&schema).expect("validation failure");

    assert_eq!(content(&e_expect), content(&e_valid));
}

#[test]
fn test_schema_extensible() {
    let schema_outer = new_schema();
    let schema = schema_outer.read();
    // Just because you are extensible, doesn't mean you can be lazy
    let e_extensible_bad = new_entry(&[
        ("class", &["extensibleobject"]),
        ("uuid", &["db237e8a-0079-4b8c-8a56-593b22aa44d1"]),
        ("multivalue", &["zzzz"]),
    ]);
    assert_eq!(
        outcome(e_extensible_bad.validate(&schema)),
        Err(SchemaError::InvalidAttributeSyntax(
            "multivalue".to_string()
        ))
    );

    // Extensible doesn't mean you can have the phantoms
    let e_extensible_phantom = new_entry(&[
        ("class", &["extensibleobject"]),
        ("uuid", &["db237e8a-0079-4b8c-8a56-593b22aa44d1"]),
        ("password_import", &["zzzz"]),
    ]);
    assert_eq!(
        outcome(e_extensible_phantom.validate(&schema)),
        Err(SchemaError::PhantomAttribute("password_import".to_string()))
    );

    let e_extensible = new_entry(&[
        ("class", &["extensibleobject"]),
        ("uuid", &["db237e8a-0079-4b8c-8a56-593b22aa44d1"]),
        ("multivalue", &["true"]),
    ]);
    /* Is okay because extensible! */
    assert!(e_extensible.validate(&schema).is_ok());
}

fn f_eq(a: &str, v: PartialValue) -> Filter {
    Filter::Eq(a.to_string(), v)
}

fn f_sub(a: &str, v: PartialValue) -> Filter {
    Filter::Sub(a.to_string(), v)
}

fn f_pres(a: &str) -> Filter {
    Filter::Pres(a.to_string())
}

fn f_andnot(f: Filter) -> Filter {
    Filter::AndNot(Box::new(f))
}

#[test]
fn test_schema_filter_validation() {
    let schema_outer = new_schema();
    let schema = schema_outer.read();
    // Test non existant attr name
    let f_mixed = f_eq("nonClAsS", PartialValue::new_class("attributetype"));
    assert_eq!(
        f_mixed.validate(&schema),
        Err(SchemaError::InvalidAttribute("nonclass".to_string()))
    );

    // test syntax of bool
    let f_bool = f_eq("multivalue", PartialValue::new_iutf8("zzzz"));
    assert_eq!(
        f_bool.validate(&schema),
        Err(SchemaError::InvalidAttributeSyntax(
            "multivalue".to_string()
        ))
    );
    // test insensitive values
    let f_insense = f_eq("class", PartialValue::new_class("AttributeType"));
    assert_eq!(
        f_insense.validate(&schema),
        Ok(f_eq("class", PartialValue::new_class("attributetype")))
    );
    // Test the recursive structures validate
    let f_or_empty = Filter::Or(vec![]);
    assert_eq!(f_or_empty.validate(&schema), Err(SchemaError::EmptyFilter));
    let f_or = Filter::Or(vec![f_eq("multivalue", PartialValue::new_iutf8("zzzz"))]);
    assert_eq!(
        f_or.validate(&schema),
        Err(SchemaError::InvalidAttributeSyntax(
            "multivalue".to_string()
        ))
    );
    let f_or_mult = Filter::And(vec![
        f_eq("class", PartialValue::new_class("attributetype")),
        f_eq("multivalue", PartialValue::new_iutf8("zzzzzzz")),
    ]);
    assert_eq!(
        f_or_mult.validate(&schema),
        Err(SchemaError::InvalidAttributeSyntax(
            "multivalue".to_string()
        ))
    );
    // Test mixed case attr name - this is a pass, due to normalisation
    let f_or_ok = f_andnot(Filter::And(vec![
        f_eq("Class", PartialValue::new_class("AttributeType")),
        f_sub("class", PartialValue::new_class("classtype")),
        f_pres("class"),
    ]));
    assert_eq!(
        f_or_ok.validate(&schema),
        Ok(f_andnot(Filter::And(vec![
            f_eq("class", PartialValue::new_class("attributetype")),
            f_sub("class", PartialValue::new_class("classtype")),
            f_pres("class"),
        ])))
    );
}

#[test]
fn test_schema_class_phantom_reject() {
    // Check that entries can be normalised and validated sanely
    let mut schema_outer = new_schema();
    let mut schema = schema_outer.write();

    assert!(schema.validate().len() == 0);

    // Attempt to create a class with a phantom attribute, should be refused.
    let class = SchemaClass {
        name: String::from("testobject"),
        uuid: Uuid::new_v4(),
        description: String::from("test object"),
        systemmay: vec!["claim".to_string()],
        may: vec![],
        systemmust: vec![],
        must: vec![],
    };

    assert!(schema.update_classes(vec![class]).is_ok());

    assert!(schema.validate().len() == 1);
}
