//! Whether an entry complies with a schema.
use crate::attribute::SchemaAttribute;
use crate::class::SchemaClass;
use crate::entry::Entry;
use crate::error::SchemaError;
use crate::schema::SchemaTransaction;
use crate::tables::{get_attribute, get_class, has_attribute};
use crate::value::PartialValue;
use hashbrown::HashMap;
use vstd::prelude::*;

verus! {

use crate::class::SchemaClassView;
use crate::entry::{ava, has_value, text_list, AttrsView};
use crate::error::SchemaErrorView;
use crate::text::texts;
use crate::state::SchemaView;
use crate::tables::{attributes_in, class_views, classes_in, Attributes, Classes};
use crate::value::{PartialValueView, ValueView};

impl SchemaClassView {
    /// The attributes that an entry of the class must have.
    pub open spec fn demands(self) -> Seq<Seq<char>> {
        self.systemmust + self.must
    }

    /// The attributes that an entry of the class can have: those that it must
    /// and those that it may have.
    pub open spec fn allows(self) -> Seq<Seq<char>> {
        self.systemmust + self.must + self.systemmay + self.may
    }
}

/// The attributes that an entry of all the classes must have.
pub open spec fn required(classes: Seq<SchemaClassView>) -> Seq<Seq<char>> {
    classes.flat_map(|c: SchemaClassView| c.demands())
}

/// The attributes that an entry of all the classes can have.
pub open spec fn allowed(classes: Seq<SchemaClassView>) -> Seq<Seq<char>> {
    classes.flat_map(|c: SchemaClassView| c.allows())
}

/// The names among some that no class has.
pub open spec fn unknown_classes(names: Seq<Seq<char>>, classes: Classes) -> Seq<Seq<char>> {
    names.filter(|n: Seq<char>| !classes.contains_key(n))
}

/// The classes of some names.
pub open spec fn classes_named(names: Seq<Seq<char>>, classes: Classes) -> Seq<SchemaClassView> {
    names.map_values(|n: Seq<char>| classes[n])
}

/// The names among some that an entry has no attribute of.
pub open spec fn absent(names: Seq<Seq<char>>, attrs: AttrsView) -> Seq<Seq<char>> {
    names.filter(|n: Seq<char>| ava(attrs, n) is None)
}

/// Whether an entry is of the class that turns the rules of classes off.
pub open spec fn is_extensible(attrs: AttrsView) -> bool {
    has_value(attrs, "class"@, PartialValueView::Iutf8("extensibleobject"@))
}

/// What is wrong with an attribute of an entry, if anything is: that the entry
/// cannot have it, that it cannot be stored, or that it does not accept the
/// values. `may` is what the classes allow, and `None` if they allow everything.
pub open spec fn attribute_fault(
    attr: (Seq<char>, Seq<ValueView>),
    may: Option<Seq<Seq<char>>>,
    attributes: Attributes,
) -> Option<SchemaErrorView> {
    if may is Some && !may->0.contains(attr.0) {
        Some(SchemaErrorView::InvalidAttribute(attr.0))
    } else if !attributes.contains_key(attr.0) {
        Some(SchemaErrorView::InvalidAttribute(attr.0))
    } else if attributes[attr.0].phantom {
        Some(SchemaErrorView::PhantomAttribute(attr.0))
    } else if !attributes[attr.0].accepts(attr.1) {
        Some(SchemaErrorView::InvalidAttributeSyntax(attr.0))
    } else {
        None
    }
}

/// The first thing that is wrong with the attributes of an entry, if anything
/// is.
pub open spec fn first_fault(
    attrs: AttrsView,
    may: Option<Seq<Seq<char>>>,
    attributes: Attributes,
) -> Option<SchemaErrorView>
    decreases attrs.len(),
{
    if attrs.len() == 0 {
        None
    } else if attribute_fault(attrs[0], may, attributes) is Some {
        attribute_fault(attrs[0], may, attributes)
    } else {
        first_fault(attrs.drop_first(), may, attributes)
    }
}

/// What is wrong with an entry, if anything is.
pub open spec fn fault(attrs: AttrsView, schema: SchemaView) -> Option<SchemaErrorView> {
    let names = text_list(attrs, "class"@);
    let classes = classes_named(names, schema.classes);
    if ava(attrs, "uuid"@) is None {
        Some(SchemaErrorView::MissingMustAttribute(seq!["uuid"@]))
    } else if names.len() == 0 {
        Some(SchemaErrorView::NoClassFound)
    } else if unknown_classes(names, schema.classes).len() > 0 {
        Some(SchemaErrorView::InvalidClass(unknown_classes(names, schema.classes)))
    } else if exists|n: Seq<char>| #[trigger]
        allowed(classes).contains(n) && !schema.attributes.contains_key(n) {
        Some(SchemaErrorView::Corrupted)
    } else if absent(required(classes), attrs).len() > 0 {
        Some(SchemaErrorView::MissingMustAttribute(absent(required(classes), attrs)))
    } else {
        first_fault(
            attrs,
            if is_extensible(attrs) {
                None
            } else {
                Some(allowed(classes))
            },
            schema.attributes,
        )
    }
}

/// Appends the names of a list to another.
fn append_names(list: &mut Vec<String>, names: &Vec<String>)
    ensures
        texts(final(list)@) == texts(old(list)@) + texts(names@),
{
    let ghost before = texts(list@);
    let mut i: usize = 0;
    assert(before =~= before + texts(names@).take(0));
    while i < names.len()
        invariant
            i <= names.len(),
            texts(list@) == before + texts(names@).take(i as int),
        decreases names.len() - i,
    {
        let ghost sofar = texts(list@);
        list.push(names[i].clone());
        i = i + 1;
        assert(texts(list@) =~= sofar.push(texts(names@)[i - 1]));
        assert(texts(list@) =~= before + texts(names@).take(i as int));
    }
    assert(texts(names@).take(i as int) =~= texts(names@));
}

/// Whether a list has a name.
fn has_name(list: &Vec<String>, name: &String) -> (r: bool)
    ensures
        r == texts(list@).contains(name@),
{
    let mut i: usize = 0;
    while i < list.len()
        invariant
            i <= list.len(),
            forall|j: int| 0 <= j < i ==> #[trigger] texts(list@)[j] != name@,
        decreases list.len() - i,
    {
        if list[i] == *name {
            assert(texts(list@)[i as int] == name@);
            return true;
        }
        i = i + 1;
    }
    false
}

/// Gathers what an entry of all the classes must have.
fn gather_required(classes: &Vec<&SchemaClass>) -> (r: Vec<String>)
    ensures
        texts(r@) == required(class_views(classes@)),
{
    let mut r: Vec<String> = Vec::new();
    let ghost all = class_views(classes@);
    let ghost f = |c: SchemaClassView| c.demands();
    proof {
        assert(all.take(0).map_values(f) =~= Seq::empty());
        assert(texts(r@) =~= all.take(0).flat_map(f));
    }
    let mut i: usize = 0;
    while i < classes.len()
        invariant
            i <= classes.len(),
            all == class_views(classes@),
            f == (|c: SchemaClassView| c.demands()),
            texts(r@) == all.take(i as int).flat_map(f),
        decreases classes.len() - i,
    {
        let c = classes[i];
        let ghost before = texts(r@);
        append_names(&mut r, &c.systemmust);
        append_names(&mut r, &c.must);
        proof {
            assert(all[i as int] == c@);
            all.lemma_flat_map_take_append(f, i as int);
            assert(texts(r@) =~= before + f(c@));
        }
        i = i + 1;
    }
    assert(all.take(i as int) =~= all);
    r
}

/// Gathers what an entry of all the classes can have.
fn gather_allowed(classes: &Vec<&SchemaClass>) -> (r: Vec<String>)
    ensures
        texts(r@) == allowed(class_views(classes@)),
{
    let mut r: Vec<String> = Vec::new();
    let ghost all = class_views(classes@);
    let ghost f = |c: SchemaClassView| c.allows();
    proof {
        assert(all.take(0).map_values(f) =~= Seq::empty());
        assert(texts(r@) =~= all.take(0).flat_map(f));
    }
    let mut i: usize = 0;
    while i < classes.len()
        invariant
            i <= classes.len(),
            all == class_views(classes@),
            f == (|c: SchemaClassView| c.allows()),
            texts(r@) == all.take(i as int).flat_map(f),
        decreases classes.len() - i,
    {
        let c = classes[i];
        let ghost before = texts(r@);
        append_names(&mut r, &c.systemmust);
        append_names(&mut r, &c.must);
        append_names(&mut r, &c.systemmay);
        append_names(&mut r, &c.may);
        proof {
            assert(all[i as int] == c@);
            all.lemma_flat_map_take_append(f, i as int);
            assert(texts(r@) =~= before + f(c@));
        }
        i = i + 1;
    }
    assert(all.take(i as int) =~= all);
    r
}

/// Looks up the classes of some names, or tells which names no class has.
fn find_classes<'a>(names: &Vec<String>, classes: &'a HashMap<String, SchemaClass>) -> (r: Result<
    Vec<&'a SchemaClass>,
    Vec<String>,
>)
    ensures
        match r {
            Ok(found) => {
                &&& unknown_classes(texts(names@), classes_in(*classes)).len() == 0
                &&& class_views(found@) == classes_named(texts(names@), classes_in(*classes))
            },
            Err(unknown) => {
                &&& unknown@.len() > 0
                &&& texts(unknown@) == unknown_classes(texts(names@), classes_in(*classes))
            },
        },
{
    let mut found: Vec<&'a SchemaClass> = Vec::new();
    let mut unknown: Vec<String> = Vec::new();
    let ghost all = texts(names@);
    let ghost p = |n: Seq<char>| !classes_in(*classes).contains_key(n);
    proof {
        reveal(Seq::filter);
        assert(texts(unknown@) =~= all.take(0).filter(p));
    }
    let mut i: usize = 0;
    while i < names.len()
        invariant
            i <= names.len(),
            all == texts(names@),
            p == (|n: Seq<char>| !classes_in(*classes).contains_key(n)),
            texts(unknown@) == all.take(i as int).filter(p),
            unknown@.len() == 0 ==> class_views(found@) == classes_named(
                all.take(i as int),
                classes_in(*classes),
            ),
        decreases names.len() - i,
    {
        let name = &names[i];
        let ghost before = texts(unknown@);
        let ghost views = class_views(found@);
        proof {
            assert(all[i as int] == name@);
            assert(all.take(i + 1) =~= all.take(i as int).push(name@));
            all.take(i as int).lemma_filter_push(name@, p);
        }
        match get_class(classes, name.as_str()) {
            Some(c) => {
                found.push(c);
                assert(class_views(found@) =~= views.push(c@));
            },
            None => {
                unknown.push(name.clone());
                assert(texts(unknown@) =~= before.push(name@));
            },
        }
        i = i + 1;
        assert(unknown@.len() == 0 ==> class_views(found@) =~= classes_named(
            all.take(i as int),
            classes_in(*classes),
        ));
    }
    assert(all.take(i as int) =~= all);
    assert(texts(unknown@).len() == unknown@.len());
    if unknown.len() > 0 {
        Err(unknown)
    } else {
        Ok(found)
    }
}

/// Whether the schema has an attribute for each name.
fn all_defined(names: &Vec<String>, attributes: &HashMap<String, SchemaAttribute>) -> (r: bool)
    ensures
        r == !(exists|n: Seq<char>| #[trigger]
            texts(names@).contains(n) && !attributes_in(*attributes).contains_key(n)),
{
    let mut i: usize = 0;
    while i < names.len()
        invariant
            i <= names.len(),
            forall|j: int|
                0 <= j < i ==> attributes_in(*attributes).contains_key(
                    #[trigger] texts(names@)[j],
                ),
        decreases names.len() - i,
    {
        if !has_attribute(attributes, names[i].as_str()) {
            assert(texts(names@)[i as int] == names@[i as int]@);
            assert(texts(names@).contains(names@[i as int]@));
            return false;
        }
        i = i + 1;
    }
    true
}

/// The names among some that an entry has no attribute of.
fn find_absent(names: &Vec<String>, entry: &Entry) -> (r: Vec<String>)
    ensures
        texts(r@) == absent(texts(names@), entry@),
{
    let mut r: Vec<String> = Vec::new();
    let ghost all = texts(names@);
    let ghost p = |n: Seq<char>| ava(entry@, n) is None;
    proof {
        reveal(Seq::filter);
        assert(texts(r@) =~= all.take(0).filter(p));
    }
    let mut i: usize = 0;
    while i < names.len()
        invariant
            i <= names.len(),
            all == texts(names@),
            p == (|n: Seq<char>| ava(entry@, n) is None),
            texts(r@) == all.take(i as int).filter(p),
        decreases names.len() - i,
    {
        let name = &names[i];
        let ghost before = texts(r@);
        proof {
            assert(all[i as int] == name@);
            assert(all.take(i + 1) =~= all.take(i as int).push(name@));
            all.take(i as int).lemma_filter_push(name@, p);
        }
        if entry.get_ava_set(name.as_str()).is_none() {
            r.push(name.clone());
            assert(texts(r@) =~= before.push(name@));
        }
        i = i + 1;
    }
    assert(all.take(i as int) =~= all);
    r
}

/// What `attribute_fault` of a place is, is the first fault, if there is none
/// before it.
proof fn lemma_first_fault(
    attrs: AttrsView,
    may: Option<Seq<Seq<char>>>,
    attributes: Attributes,
    i: int,
)
    requires
        0 <= i <= attrs.len(),
        forall|j: int|
            0 <= j < i ==> attribute_fault(#[trigger] attrs[j], may, attributes) is None,
        i < attrs.len() ==> attribute_fault(attrs[i], may, attributes) is Some,
    ensures
        first_fault(attrs, may, attributes) == (if i < attrs.len() {
            attribute_fault(attrs[i], may, attributes)
        } else {
            None
        }),
    decreases attrs.len(),
{
    if i > 0 {
        assert(attribute_fault(attrs[0], may, attributes) is None);
        let rest = attrs.drop_first();
        assert forall|j: int| 0 <= j < i - 1 implies attribute_fault(
            #[trigger] rest[j],
            may,
            attributes,
        ) is None by {
            assert(rest[j] == attrs[j + 1]);
        }
        lemma_first_fault(rest, may, attributes, i - 1);
    }
}

/// The contents of a list of names that may not be there.
spec fn opt_texts(names: Option<Vec<String>>) -> Option<Seq<Seq<char>>> {
    match names {
        Some(v) => Some(texts(v@)),
        None => None,
    }
}

/// Whether each attribute of an entry is as it should be.
fn check_attributes(
    entry: &Entry,
    may: &Option<Vec<String>>,
    attributes: &HashMap<String, SchemaAttribute>,
) -> (r: Result<(), SchemaError>)
    ensures
        match r {
            Ok(_) => first_fault(entry@, opt_texts(*may), attributes_in(*attributes)) is None,
            Err(e) => first_fault(entry@, opt_texts(*may), attributes_in(*attributes)) == Some(e@),
        },
{
    let mut i: usize = 0;
    while i < entry.len()
        invariant
            i <= entry@.len(),
            forall|j: int|
                0 <= j < i ==> attribute_fault(
                    #[trigger] entry@[j],
                    opt_texts(*may),
                    attributes_in(*attributes),
                ) is None,
        decreases entry@.len() - i,
    {
        let name = entry.name_at(i);
        let mut e: Option<SchemaError> = None;
        let known = match may {
            Some(list) => has_name(list, name),
            None => true,
        };
        if !known {
            e = Some(SchemaError::InvalidAttribute(name.clone()));
        } else {
            match get_attribute(attributes, name.as_str()) {
                Some(a) => {
                    if a.phantom {
                        e = Some(SchemaError::PhantomAttribute(name.clone()));
                    } else {
                        match a.validate_ava(name.as_str(), entry.values_at(i)) {
                            Ok(_) => {},
                            Err(x) => {
                                e = Some(x);
                            },
                        }
                    }
                },
                None => {
                    e = Some(SchemaError::InvalidAttribute(name.clone()));
                },
            }
        }
        if let Some(x) = e {
            proof {
                lemma_first_fault(
                    entry@,
                    opt_texts(*may),
                    attributes_in(*attributes),
                    i as int,
                );
            }
            return Err(x);
        }
        i = i + 1;
    }
    proof {
        lemma_first_fault(entry@, opt_texts(*may), attributes_in(*attributes), i as int);
    }
    Ok(())
}

impl Entry {
    /// Checks that the entry complies with a schema, and gives it back if so.
    ///
    /// It needs an identifier and at least one class, and its classes must be
    /// known. What any of its classes demands must be there. What is there must
    /// be allowed by one of the classes, unless the entry is extensible; and it
    /// must always be known, storable and of the right kind.
    pub fn validate<T: SchemaTransaction>(self, schema: &T) -> (r: Result<Entry, SchemaError>)
        ensures
            match r {
                Ok(e) => fault(self@, schema.schema()) is None && e@ == self@,
                Err(e) => fault(self@, schema.schema()) == Some(e@),
            },
    {
        if self.get_ava_set("uuid").is_none() {
            let mut missing: Vec<String> = Vec::new();
            missing.push("uuid".to_owned());
            assert(texts(missing@) =~= seq!["uuid"@]);
            return Err(SchemaError::MissingMustAttribute(missing));
        }
        let names = self.get_ava_as_str("class");
        if names.len() == 0 {
            return Err(SchemaError::NoClassFound);
        }
        let attributes = schema.get_attributes();
        let classes = match find_classes(&names, schema.get_classes()) {
            Ok(found) => found,
            Err(unknown) => {
                return Err(SchemaError::InvalidClass(unknown));
            },
        };
        let can = gather_allowed(&classes);
        if !all_defined(&can, attributes) {
            return Err(SchemaError::Corrupted);
        }
        let missing = find_absent(&gather_required(&classes), &self);
        if missing.len() > 0 {
            return Err(SchemaError::MissingMustAttribute(missing));
        }
        let extensible = self.attribute_value_pres(
            "class",
            &PartialValue::Iutf8("extensibleobject".to_owned()),
        );
        let may = if extensible {
            None
        } else {
            Some(can)
        };
        match check_attributes(&self, &may, attributes) {
            Ok(_) => Ok(self),
            Err(e) => Err(e),
        }
    }
}

} // verus!
