//! Whether the classes of a schema name only attributes that it can store.
use crate::attribute::SchemaAttribute;
use crate::class::SchemaClass;
use crate::error::ConsistencyError;
use crate::tables::get_attribute;
use hashbrown::HashMap;
use vstd::prelude::*;

verus! {

use crate::class::SchemaClassView;
use crate::error::{report, ConsistencyErrorView};
use crate::text::texts;
use crate::tables::{attributes_in, class_views, enumerates, lists_values, Attributes, Classes};

impl SchemaClassView {
    /// Every attribute that the class names, in the order in which they are
    /// checked.
    pub open spec fn named(self) -> Seq<Seq<char>> {
        self.systemmay + self.may + self.systemmust + self.must
    }
}

/// What is wrong with a class that names an attribute, if anything is.
pub open spec fn problem(class: Seq<char>, attr: Seq<char>, attributes: Attributes) -> Option<
    ConsistencyErrorView,
> {
    if !attributes.contains_key(attr) {
        Some(ConsistencyErrorView::SchemaClassMissingAttribute(class, attr))
    } else if attributes[attr].phantom {
        Some(ConsistencyErrorView::SchemaClassPhantomAttribute(class, attr))
    } else {
        None
    }
}

/// What is wrong with the naming of an attribute, as a report lists it.
pub open spec fn finding(class: Seq<char>, attributes: Attributes) -> spec_fn(Seq<char>) -> Option<
    Result<(), ConsistencyErrorView>,
> {
    |attr: Seq<char>|
        match problem(class, attr, attributes) {
            Some(e) => Some(Err(e)),
            None => None,
        }
}

/// What is wrong with a class: an error for each attribute that it names and
/// that is missing or a phantom, in order.
pub open spec fn class_report(class: SchemaClassView, attributes: Attributes) -> Seq<
    Result<(), ConsistencyErrorView>,
> {
    class.named().filter_map(finding(class.name, attributes))
}

/// What is wrong with some classes, one after the other.
pub open spec fn full_report(classes: Seq<SchemaClassView>, attributes: Attributes) -> Seq<
    Result<(), ConsistencyErrorView>,
> {
    classes.flat_map(|c: SchemaClassView| class_report(c, attributes))
}

/// Whether every attribute that a class names is there and can be stored.
pub open spec fn consistent(classes: Classes, attributes: Attributes) -> bool {
    forall|c: Seq<char>, a: Seq<char>|
        #![trigger classes[c].named().contains(a)]
        classes.contains_key(c) && classes[c].named().contains(a) ==> attributes.contains_key(a)
            && !attributes[a].phantom
}

/// What is found in two lists, one after the other, is what is found in each.
proof fn lemma_filter_map_concat<A, B>(s: Seq<A>, t: Seq<A>, f: spec_fn(A) -> Option<B>)
    ensures
        (s + t).filter_map(f) == s.filter_map(f) + t.filter_map(f),
    decreases t.len(),
{
    let st = s + t;
    if t.len() == 0 {
        assert(st =~= s);
        assert(s.filter_map(f) + t.filter_map(f) =~= s.filter_map(f));
    } else {
        let n = t.len() - 1;
        lemma_filter_map_concat(s, t.take(n), f);
        assert(st.take(s.len() + n) =~= s + t.take(n));
        assert(st.take(s.len() + n + 1) =~= st);
        assert(t.take(n + 1) =~= t);
        st.lemma_filter_map_take_succ(f, s.len() + n);
        t.lemma_filter_map_take_succ(f, n);
        assert(st.filter_map(f) =~= s.filter_map(f) + t.filter_map(f));
    }
}

/// What `filter_map` keeps comes from the list, and all that it should keep is
/// kept.
pub(crate) proof fn lemma_filter_map_elements<A, B>(s: Seq<A>, f: spec_fn(A) -> Option<B>, b: B)
    ensures
        s.filter_map(f).contains(b) <==> exists|i: int|
            0 <= i < s.len() && f(#[trigger] s[i]) == Some(b),
    decreases s.len(),
{
    if s.len() > 0 {
        let n = s.len() - 1;
        let front = s.take(n);
        lemma_filter_map_elements(front, f, b);
        assert(s.take(n + 1) =~= s);
        s.lemma_filter_map_take_succ(f, n);
        let last: Seq<B> = match f(s[n]) {
            Some(x) => seq![x],
            None => Seq::empty(),
        };
        assert(s.filter_map(f) =~= front.filter_map(f) + last);
        if s.filter_map(f).contains(b) {
            let k = choose|k: int| 0 <= k < s.filter_map(f).len() && s.filter_map(f)[k] == b;
            if k < front.filter_map(f).len() {
                assert(front.filter_map(f)[k] == b);
                let i = choose|i: int| 0 <= i < front.len() && f(#[trigger] front[i]) == Some(b);
                assert(s[i] == front[i]);
            } else {
                assert(f(s[n]) == Some(b));
            }
        }
        if exists|i: int| 0 <= i < s.len() && f(#[trigger] s[i]) == Some(b) {
            let i = choose|i: int| 0 <= i < s.len() && f(#[trigger] s[i]) == Some(b);
            if i < n {
                assert(front[i] == s[i]);
                let k = choose|k: int|
                    0 <= k < front.filter_map(f).len() && front.filter_map(f)[k] == b;
                assert(s.filter_map(f)[k] == b);
            } else {
                assert(s.filter_map(f)[front.filter_map(f).len() as int] == b);
            }
        }
    }
}

/// What `flat_map` gathers comes from some element, and all of each is gathered.
pub(crate) proof fn lemma_flat_map_elements<A, B>(s: Seq<A>, f: spec_fn(A) -> Seq<B>, b: B)
    ensures
        s.flat_map(f).contains(b) <==> exists|i: int|
            0 <= i < s.len() && f(#[trigger] s[i]).contains(b),
    decreases s.len(),
{
    if s.len() == 0 {
        assert(s.map_values(f) =~= Seq::empty());
        assert(s.flat_map(f) =~= Seq::empty());
    } else {
        let n = s.len() - 1;
        let front = s.take(n);
        lemma_flat_map_elements(front, f, b);
        assert(s.take(n + 1) =~= s);
        s.lemma_flat_map_take_append(f, n);
        let before = front.flat_map(f);
        let last = f(s[n]);
        assert(s.flat_map(f) == before + last);
        if s.flat_map(f).contains(b) {
            let k = choose|k: int| 0 <= k < s.flat_map(f).len() && s.flat_map(f)[k] == b;
            if k < before.len() {
                assert(before[k] == b);
                let i = choose|i: int| 0 <= i < front.len() && f(#[trigger] front[i]).contains(b);
                assert(s[i] == front[i]);
            } else {
                assert(last[k - before.len()] == b);
                assert(f(s[n]).contains(b));
            }
        }
        if exists|i: int| 0 <= i < s.len() && f(#[trigger] s[i]).contains(b) {
            let i = choose|i: int| 0 <= i < s.len() && f(#[trigger] s[i]).contains(b);
            if i < n {
                assert(front[i] == s[i]);
                let k = choose|k: int| 0 <= k < before.len() && before[k] == b;
                assert(s.flat_map(f)[k] == b);
            } else {
                let k = choose|k: int| 0 <= k < last.len() && last[k] == b;
                assert(s.flat_map(f)[before.len() + k] == b);
            }
        }
    }
}

/// A report on the classes of a schema, taken in any order, holds an error if and
/// only if that error holds of some class and some attribute that it names. So
/// nothing is reported without cause and nothing is passed over.
pub proof fn law_report_is_exact(
    order: Seq<SchemaClassView>,
    classes: Classes,
    attributes: Attributes,
    e: ConsistencyErrorView,
)
    requires
        lists_values(order, classes),
    ensures
        full_report(order, attributes).contains(Err(e)) <==> exists|c: Seq<char>, a: Seq<char>|
            #![trigger classes[c].named().contains(a)]
            classes.contains_key(c) && classes[c].named().contains(a) && problem(
                classes[c].name,
                a,
                attributes,
            ) == Some(e),
{
    let f = |c: SchemaClassView| class_report(c, attributes);
    let keys = choose|keys: Seq<Seq<char>>| #[trigger]
        enumerates(keys, classes) && order == keys.map_values(|k: Seq<char>| classes[k]);
    let item: Result<(), ConsistencyErrorView> = Err(e);
    lemma_flat_map_elements(order, f, item);
    if full_report(order, attributes).contains(item) {
        let i = choose|i: int| 0 <= i < order.len() && f(#[trigger] order[i]).contains(item);
        let c = keys[i];
        assert(keys.contains(c));
        assert(classes.contains_key(c) && classes[c] == order[i]);
        let g = finding(classes[c].name, attributes);
        lemma_filter_map_elements(classes[c].named(), g, item);
        let j = choose|j: int|
            0 <= j < classes[c].named().len() && g(#[trigger] classes[c].named()[j]) == Some(item);
        let a = classes[c].named()[j];
        assert(classes[c].named().contains(a));
    }
    if exists|c: Seq<char>, a: Seq<char>|
        #![trigger classes[c].named().contains(a)]
        classes.contains_key(c) && classes[c].named().contains(a) && problem(
            classes[c].name,
            a,
            attributes,
        ) == Some(e) {
        let (c, a) = choose|c: Seq<char>, a: Seq<char>|
            #![trigger classes[c].named().contains(a)]
            classes.contains_key(c) && classes[c].named().contains(a) && problem(
                classes[c].name,
                a,
                attributes,
            ) == Some(e);
        assert(keys.contains(c));
        let i = choose|i: int| 0 <= i < keys.len() && keys[i] == c;
        assert(order[i] == classes[c]);
        let g = finding(classes[c].name, attributes);
        let names = classes[c].named();
        let j = choose|j: int| 0 <= j < names.len() && names[j] == a;
        assert(g(names[j]) == Some(item));
        lemma_filter_map_elements(names, g, item);
        assert(f(order[i]).contains(item));
    }
}

/// A report is empty if and only if the schema is consistent.
pub proof fn law_empty_report(order: Seq<SchemaClassView>, classes: Classes, attributes: Attributes)
    requires
        lists_values(order, classes),
    ensures
        full_report(order, attributes).len() == 0 <==> consistent(classes, attributes),
{
    let all = full_report(order, attributes);
    if all.len() == 0 {
        assert forall|c: Seq<char>, a: Seq<char>|
            #![trigger classes[c].named().contains(a)]
            classes.contains_key(c) && classes[c].named().contains(
                a,
            ) implies attributes.contains_key(a) && !attributes[a].phantom by {
            let p = problem(classes[c].name, a, attributes);
            if p is Some {
                law_report_is_exact(order, classes, attributes, p->0);
                assert(all.contains(Err(p->0)));
            }
        }
    } else {
        let f = |c: SchemaClassView| class_report(c, attributes);
        let item = all[0];
        assert(all.contains(item));
        lemma_flat_map_elements(order, f, item);
        let i = choose|i: int| 0 <= i < order.len() && f(#[trigger] order[i]).contains(item);
        let g = finding(order[i].name, attributes);
        lemma_filter_map_elements(order[i].named(), g, item);
        let j = choose|j: int|
            0 <= j < order[i].named().len() && g(#[trigger] order[i].named()[j]) == Some(item);
        let e = problem(order[i].name, order[i].named()[j], attributes)->0;
        assert(item == Err::<(), ConsistencyErrorView>(e));
        law_report_is_exact(order, classes, attributes, e);
    }
}

/// Appends to a report what is wrong with the attributes that a class names in
/// one of its lists.
fn check_names(
    class: &String,
    names: &Vec<String>,
    attributes: &HashMap<String, SchemaAttribute>,
    found: &mut Vec<Result<(), ConsistencyError>>,
)
    ensures
        report(final(found)@) == report(old(found)@) + texts(names@).filter_map(
            finding(class@, attributes_in(*attributes)),
        ),
{
    let ghost before = report(found@);
    let ghost f = finding(class@, attributes_in(*attributes));
    let ghost all = texts(names@);
    assert(before =~= before + all.take(0).filter_map(f));
    let mut i: usize = 0;
    while i < names.len()
        invariant
            i <= names.len(),
            f == finding(class@, attributes_in(*attributes)),
            all == texts(names@),
            report(found@) == before + all.take(i as int).filter_map(f),
        decreases names.len() - i,
    {
        let name = &names[i];
        let ghost sofar = report(found@);
        proof {
            all.lemma_filter_map_take_succ(f, i as int);
            assert(all[i as int] == name@);
        }
        match get_attribute(attributes, name.as_str()) {
            Some(attr) => {
                if attr.phantom {
                    found.push(
                        Err(
                            ConsistencyError::SchemaClassPhantomAttribute(
                                class.clone(),
                                name.clone(),
                            ),
                        ),
                    );
                    assert(report(found@) =~= sofar.push(f(name@)->0));
                }
            },
            None => {
                found.push(
                    Err(ConsistencyError::SchemaClassMissingAttribute(class.clone(), name.clone())),
                );
                assert(report(found@) =~= sofar.push(f(name@)->0));
            },
        }
        i = i + 1;
        assert(report(found@) =~= before + all.take(i as int).filter_map(f));
    }
    assert(all.take(i as int) =~= all);
}

/// Reports what is wrong with some classes, one after the other.
pub fn check_classes(
    classes: &Vec<&SchemaClass>,
    attributes: &HashMap<String, SchemaAttribute>,
) -> (r: Vec<Result<(), ConsistencyError>>)
    ensures
        report(r@) == full_report(class_views(classes@), attributes_in(*attributes)),
{
    let mut found: Vec<Result<(), ConsistencyError>> = Vec::new();
    let ghost all = class_views(classes@);
    let ghost f = |c: SchemaClassView| class_report(c, attributes_in(*attributes));
    proof {
        assert(all.take(0).map_values(f) =~= Seq::empty());
        assert(report(found@) =~= all.take(0).flat_map(f));
    }
    let mut i: usize = 0;
    while i < classes.len()
        invariant
            i <= classes.len(),
            all == class_views(classes@),
            f == (|c: SchemaClassView| class_report(c, attributes_in(*attributes))),
            report(found@) == all.take(i as int).flat_map(f),
        decreases classes.len() - i,
    {
        let class = classes[i];
        let ghost sofar = report(found@);
        check_names(&class.name, &class.systemmay, attributes, &mut found);
        check_names(&class.name, &class.may, attributes, &mut found);
        check_names(&class.name, &class.systemmust, attributes, &mut found);
        check_names(&class.name, &class.must, attributes, &mut found);
        proof {
            let c = class@;
            let g = finding(c.name, attributes_in(*attributes));
            lemma_filter_map_concat(c.systemmay, c.may, g);
            lemma_filter_map_concat(c.systemmay + c.may, c.systemmust, g);
            lemma_filter_map_concat(c.systemmay + c.may + c.systemmust, c.must, g);
            assert(all[i as int] == c);
            assert(report(found@) =~= sofar + f(c));
            all.lemma_flat_map_take_append(f, i as int);
        }
        i = i + 1;
    }
    assert(all.take(i as int) =~= all);
    found
}

} // verus!
