//! The values that an entry holds, and the types that describe them.
use crate::foreign::uuid_as_number;
use crate::text::{to_lowercase, to_uppercase};
use uuid::Uuid;
use vstd::prelude::*;

verus! {

use crate::foreign::uuid_number;
use crate::order::{law_order_is_irreflexive, law_order_is_total, law_order_is_transitive};

/// The ways in which an attribute can be indexed.
#[allow(non_camel_case_types)]
#[derive(Clone, Copy, Debug, PartialEq, Eq, Structural, Hash)]
pub enum IndexType {
    EQUALITY,
    PRESENCE,
    SUBSTRING,
}

/// The kinds of data that an attribute can hold.
#[allow(non_camel_case_types)]
#[derive(Clone, Copy, Debug, PartialEq, Eq, Structural, Hash)]
pub enum SyntaxType {
    UTF8STRING,
    UTF8STRING_INSENSITIVE,
    UTF8STRING_INAME,
    UUID,
    BOOLEAN,
    SYNTAX_ID,
    INDEX_ID,
    REFERENCE_UUID,
    JSON_FILTER,
    CREDENTIAL,
    RADIUS_UTF8STRING,
    SSHKEY,
    SERVICE_PRINCIPLE_NAME,
    UINT32,
    CID,
    NSUNIQUEID,
}

/// Whether `s` is the text `t`.
pub(crate) fn is_text(s: &String, t: &str) -> (r: bool)
    ensures
        r == (s@ == t@),
{
    *s == t.to_owned()
}

impl IndexType {
    /// The way to index that a text in upper case stands for.
    pub open spec fn named(s: Seq<char>) -> Option<IndexType> {
        if s == "EQUALITY"@ {
            Some(IndexType::EQUALITY)
        } else if s == "PRESENCE"@ {
            Some(IndexType::PRESENCE)
        } else if s == "SUBSTRING"@ {
            Some(IndexType::SUBSTRING)
        } else {
            None
        }
    }

    /// Reads the name of a way to index, in any case.
    pub fn try_from(value: &str) -> (r: Result<Self, ()>)
        ensures
            r == (match Self::named(crate::text::upper(value@)) {
                Some(i) => Ok::<IndexType, ()>(i),
                None => Err(()),
            }),
    {
        let upper = to_uppercase(value);
        if is_text(&upper, "EQUALITY") {
            Ok(IndexType::EQUALITY)
        } else if is_text(&upper, "PRESENCE") {
            Ok(IndexType::PRESENCE)
        } else if is_text(&upper, "SUBSTRING") {
            Ok(IndexType::SUBSTRING)
        } else {
            Err(())
        }
    }
}

impl SyntaxType {
    /// The kind of data that a text in upper case stands for.
    pub open spec fn named(s: Seq<char>) -> Option<SyntaxType> {
        if s == "UTF8STRING"@ {
            Some(SyntaxType::UTF8STRING)
        } else if s == "UTF8STRING_INSENSITIVE"@ {
            Some(SyntaxType::UTF8STRING_INSENSITIVE)
        } else if s == "UTF8STRING_INAME"@ {
            Some(SyntaxType::UTF8STRING_INAME)
        } else if s == "UUID"@ {
            Some(SyntaxType::UUID)
        } else if s == "BOOLEAN"@ {
            Some(SyntaxType::BOOLEAN)
        } else if s == "SYNTAX_ID"@ {
            Some(SyntaxType::SYNTAX_ID)
        } else if s == "INDEX_ID"@ {
            Some(SyntaxType::INDEX_ID)
        } else if s == "REFERENCE_UUID"@ {
            Some(SyntaxType::REFERENCE_UUID)
        } else if s == "JSON_FILTER"@ {
            Some(SyntaxType::JSON_FILTER)
        } else if s == "CREDENTIAL"@ {
            Some(SyntaxType::CREDENTIAL)
        } else if s == "RADIUS_UTF8STRING"@ {
            Some(SyntaxType::RADIUS_UTF8STRING)
        } else if s == "SSHKEY"@ {
            Some(SyntaxType::SSHKEY)
        } else if s == "SERVICE_PRINCIPLE_NAME"@ {
            Some(SyntaxType::SERVICE_PRINCIPLE_NAME)
        } else if s == "UINT32"@ {
            Some(SyntaxType::UINT32)
        } else if s == "CID"@ {
            Some(SyntaxType::CID)
        } else if s == "NSUNIQUEID"@ {
            Some(SyntaxType::NSUNIQUEID)
        } else {
            None
        }
    }

    /// Reads the name of a kind of data, in any case.
    pub fn try_from(value: &str) -> (r: Result<Self, ()>)
        ensures
            r == (match Self::named(crate::text::upper(value@)) {
                Some(i) => Ok::<SyntaxType, ()>(i),
                None => Err(()),
            }),
    {
        let upper = to_uppercase(value);
        if is_text(&upper, "UTF8STRING") {
            Ok(SyntaxType::UTF8STRING)
        } else if is_text(&upper, "UTF8STRING_INSENSITIVE") {
            Ok(SyntaxType::UTF8STRING_INSENSITIVE)
        } else if is_text(&upper, "UTF8STRING_INAME") {
            Ok(SyntaxType::UTF8STRING_INAME)
        } else if is_text(&upper, "UUID") {
            Ok(SyntaxType::UUID)
        } else if is_text(&upper, "BOOLEAN") {
            Ok(SyntaxType::BOOLEAN)
        } else if is_text(&upper, "SYNTAX_ID") {
            Ok(SyntaxType::SYNTAX_ID)
        } else if is_text(&upper, "INDEX_ID") {
            Ok(SyntaxType::INDEX_ID)
        } else if is_text(&upper, "REFERENCE_UUID") {
            Ok(SyntaxType::REFERENCE_UUID)
        } else if is_text(&upper, "JSON_FILTER") {
            Ok(SyntaxType::JSON_FILTER)
        } else if is_text(&upper, "CREDENTIAL") {
            Ok(SyntaxType::CREDENTIAL)
        } else if is_text(&upper, "RADIUS_UTF8STRING") {
            Ok(SyntaxType::RADIUS_UTF8STRING)
        } else if is_text(&upper, "SSHKEY") {
            Ok(SyntaxType::SSHKEY)
        } else if is_text(&upper, "SERVICE_PRINCIPLE_NAME") {
            Ok(SyntaxType::SERVICE_PRINCIPLE_NAME)
        } else if is_text(&upper, "UINT32") {
            Ok(SyntaxType::UINT32)
        } else if is_text(&upper, "CID") {
            Ok(SyntaxType::CID)
        } else if is_text(&upper, "NSUNIQUEID") {
            Ok(SyntaxType::NSUNIQUEID)
        } else {
            Err(())
        }
    }

    /// Whether a value is of this kind.
    pub open spec fn admits(self, v: PartialValueView) -> bool {
        match self {
            SyntaxType::UTF8STRING => v is Utf8,
            SyntaxType::UTF8STRING_INSENSITIVE => v is Iutf8,
            SyntaxType::UTF8STRING_INAME => v is Iname,
            SyntaxType::UUID => v is Uuid,
            SyntaxType::BOOLEAN => v is Bool,
            SyntaxType::SYNTAX_ID => v is Syntax,
            SyntaxType::INDEX_ID => v is Index,
            SyntaxType::REFERENCE_UUID => v is Refer,
            SyntaxType::JSON_FILTER => v is JsonFilt,
            SyntaxType::CREDENTIAL => v is Cred,
            SyntaxType::RADIUS_UTF8STRING => v is RadiusCred,
            SyntaxType::SSHKEY => v is SshKey,
            SyntaxType::SERVICE_PRINCIPLE_NAME => v is Spn,
            SyntaxType::UINT32 => v is Uint32,
            SyntaxType::CID => v is Cid,
            SyntaxType::NSUNIQUEID => v is Nsuniqueid,
        }
    }
}

/// What can be asked of a value: its tag where the rest is secret, else all of it.
#[derive(Debug, PartialEq, Eq)]
pub enum PartialValue {
    /// Text.
    Utf8(String),
    /// Text whose case does not matter, in lower case.
    Iutf8(String),
    /// A name whose case does not matter, in lower case.
    Iname(String),
    /// An identifier.
    Uuid(Uuid),
    /// True or false.
    Bool(bool),
    /// A kind of data.
    Syntax(SyntaxType),
    /// A way to index.
    Index(IndexType),
    /// The identifier of another entry.
    Refer(Uuid),
    /// The text of a filter.
    JsonFilt(String),
    /// The tag of a credential.
    Cred(String),
    /// The tag of an SSH key.
    SshKey(String),
    /// That a RADIUS secret is there.
    RadiusCred,
    /// A service principal: a name and its realm.
    Spn(String, String),
    /// A number.
    Uint32(u32),
    /// The identifier of a change.
    Cid(u64),
    /// A unique id of another directory server.
    Nsuniqueid(String),
}

/// The contents of a [`PartialValue`]. An identifier is the number that it is.
pub enum PartialValueView {
    Utf8(Seq<char>),
    Iutf8(Seq<char>),
    Iname(Seq<char>),
    Uuid(u128),
    Bool(bool),
    Syntax(SyntaxType),
    Index(IndexType),
    Refer(u128),
    JsonFilt(Seq<char>),
    Cred(Seq<char>),
    SshKey(Seq<char>),
    RadiusCred,
    Spn(Seq<char>, Seq<char>),
    Uint32(u32),
    Cid(u64),
    Nsuniqueid(Seq<char>),
}

impl View for PartialValue {
    type V = PartialValueView;

    open spec fn view(&self) -> PartialValueView {
        match self {
            PartialValue::Utf8(s) => PartialValueView::Utf8(s@),
            PartialValue::Iutf8(s) => PartialValueView::Iutf8(s@),
            PartialValue::Iname(s) => PartialValueView::Iname(s@),
            PartialValue::Uuid(x) => PartialValueView::Uuid(uuid_number(*x)),
            PartialValue::Bool(x) => PartialValueView::Bool(*x),
            PartialValue::Syntax(x) => PartialValueView::Syntax(*x),
            PartialValue::Index(x) => PartialValueView::Index(*x),
            PartialValue::Refer(x) => PartialValueView::Refer(uuid_number(*x)),
            PartialValue::JsonFilt(s) => PartialValueView::JsonFilt(s@),
            PartialValue::Cred(s) => PartialValueView::Cred(s@),
            PartialValue::SshKey(s) => PartialValueView::SshKey(s@),
            PartialValue::RadiusCred => PartialValueView::RadiusCred,
            PartialValue::Spn(s, r) => PartialValueView::Spn(s@, r@),
            PartialValue::Uint32(x) => PartialValueView::Uint32(*x),
            PartialValue::Cid(x) => PartialValueView::Cid(*x),
            PartialValue::Nsuniqueid(s) => PartialValueView::Nsuniqueid(s@),
        }
    }
}

impl PartialValueView {
    /// The text of a value that is text of some kind.
    pub open spec fn text(self) -> Option<Seq<char>> {
        match self {
            PartialValueView::Utf8(s) => Some(s),
            PartialValueView::Iutf8(s) => Some(s),
            PartialValueView::Iname(s) => Some(s),
            _ => None,
        }
    }
}

impl Clone for PartialValue {
    fn clone(&self) -> (r: Self)
        ensures
            r@ == self@,
    {
        match self {
            PartialValue::Utf8(s) => PartialValue::Utf8(s.clone()),
            PartialValue::Iutf8(s) => PartialValue::Iutf8(s.clone()),
            PartialValue::Iname(s) => PartialValue::Iname(s.clone()),
            PartialValue::Uuid(x) => PartialValue::Uuid(*x),
            PartialValue::Bool(x) => PartialValue::Bool(*x),
            PartialValue::Syntax(x) => PartialValue::Syntax(*x),
            PartialValue::Index(x) => PartialValue::Index(*x),
            PartialValue::Refer(x) => PartialValue::Refer(*x),
            PartialValue::JsonFilt(s) => PartialValue::JsonFilt(s.clone()),
            PartialValue::Cred(s) => PartialValue::Cred(s.clone()),
            PartialValue::SshKey(s) => PartialValue::SshKey(s.clone()),
            PartialValue::RadiusCred => PartialValue::RadiusCred,
            PartialValue::Spn(s, r) => PartialValue::Spn(s.clone(), r.clone()),
            PartialValue::Uint32(x) => PartialValue::Uint32(*x),
            PartialValue::Cid(x) => PartialValue::Cid(*x),
            PartialValue::Nsuniqueid(s) => PartialValue::Nsuniqueid(s.clone()),
        }
    }
}

impl PartialValue {
    /// Text whose case does not matter.
    pub fn new_iutf8(s: &str) -> (r: Self)
        ensures
            r@ == PartialValueView::Iutf8(crate::text::lower(s@)),
    {
        PartialValue::Iutf8(to_lowercase(s))
    }

    /// The name of a class.
    pub fn new_class(s: &str) -> (r: Self)
        ensures
            r@ == PartialValueView::Iutf8(crate::text::lower(s@)),
    {
        PartialValue::new_iutf8(s)
    }

    /// Whether the two are the same value.
    pub fn same(&self, other: &Self) -> (r: bool)
        ensures
            r == (self@ == other@),
    {
        match (self, other) {
            (PartialValue::Utf8(a), PartialValue::Utf8(b)) => *a == *b,
            (PartialValue::Iutf8(a), PartialValue::Iutf8(b)) => *a == *b,
            (PartialValue::Iname(a), PartialValue::Iname(b)) => *a == *b,
            (PartialValue::Uuid(a), PartialValue::Uuid(b)) => uuid_as_number(a) == uuid_as_number(b),
            (PartialValue::Bool(a), PartialValue::Bool(b)) => *a == *b,
            (PartialValue::Syntax(a), PartialValue::Syntax(b)) => *a == *b,
            (PartialValue::Index(a), PartialValue::Index(b)) => *a == *b,
            (PartialValue::Refer(a), PartialValue::Refer(b)) => uuid_as_number(a) == uuid_as_number(b),
            (PartialValue::JsonFilt(a), PartialValue::JsonFilt(b)) => *a == *b,
            (PartialValue::Cred(a), PartialValue::Cred(b)) => *a == *b,
            (PartialValue::SshKey(a), PartialValue::SshKey(b)) => *a == *b,
            (PartialValue::RadiusCred, PartialValue::RadiusCred) => true,
            (PartialValue::Spn(a, c), PartialValue::Spn(b, d)) => *a == *b && *c == *d,
            (PartialValue::Uint32(a), PartialValue::Uint32(b)) => *a == *b,
            (PartialValue::Cid(a), PartialValue::Cid(b)) => *a == *b,
            (PartialValue::Nsuniqueid(a), PartialValue::Nsuniqueid(b)) => *a == *b,
            _ => false,
        }
    }

    /// The text of a value that is text of some kind.
    pub fn to_str(&self) -> (r: Option<&String>)
        ensures
            match r {
                Some(s) => self@.text() == Some(s@),
                None => self@.text() is None,
            },
    {
        match self {
            PartialValue::Utf8(s) => Some(s),
            PartialValue::Iutf8(s) => Some(s),
            PartialValue::Iname(s) => Some(s),
            _ => None,
        }
    }

    /// Whether the value is text.
    pub fn is_utf8(&self) -> (r: bool)
        ensures
            r == (self@ is Utf8),
    {
        matches!(self, PartialValue::Utf8(..))
    }

    /// Whether the value is text whose case does not matter.
    pub fn is_iutf8(&self) -> (r: bool)
        ensures
            r == (self@ is Iutf8),
    {
        matches!(self, PartialValue::Iutf8(..))
    }

    /// Whether the value is a name whose case does not matter.
    pub fn is_iname(&self) -> (r: bool)
        ensures
            r == (self@ is Iname),
    {
        matches!(self, PartialValue::Iname(..))
    }

    /// Whether the value is an identifier.
    pub fn is_uuid(&self) -> (r: bool)
        ensures
            r == (self@ is Uuid),
    {
        matches!(self, PartialValue::Uuid(..))
    }

    /// Whether the value is true or false.
    pub fn is_bool(&self) -> (r: bool)
        ensures
            r == (self@ is Bool),
    {
        matches!(self, PartialValue::Bool(..))
    }

    /// Whether the value is a kind of data.
    pub fn is_syntax(&self) -> (r: bool)
        ensures
            r == (self@ is Syntax),
    {
        matches!(self, PartialValue::Syntax(..))
    }

    /// Whether the value is a way to index.
    pub fn is_index(&self) -> (r: bool)
        ensures
            r == (self@ is Index),
    {
        matches!(self, PartialValue::Index(..))
    }

    /// Whether the value is the identifier of another entry.
    pub fn is_refer(&self) -> (r: bool)
        ensures
            r == (self@ is Refer),
    {
        matches!(self, PartialValue::Refer(..))
    }

    /// Whether the value is the text of a filter.
    pub fn is_json_filter(&self) -> (r: bool)
        ensures
            r == (self@ is JsonFilt),
    {
        matches!(self, PartialValue::JsonFilt(..))
    }

    /// Whether the value is a credential.
    pub fn is_credential(&self) -> (r: bool)
        ensures
            r == (self@ is Cred),
    {
        matches!(self, PartialValue::Cred(..))
    }

    /// Whether the value is an SSH key.
    pub fn is_sshkey(&self) -> (r: bool)
        ensures
            r == (self@ is SshKey),
    {
        matches!(self, PartialValue::SshKey(..))
    }

    /// Whether the value is a RADIUS secret.
    pub fn is_radius_string(&self) -> (r: bool)
        ensures
            r == (self@ is RadiusCred),
    {
        matches!(self, PartialValue::RadiusCred)
    }

    /// Whether the value is a service principal.
    pub fn is_spn(&self) -> (r: bool)
        ensures
            r == (self@ is Spn),
    {
        matches!(self, PartialValue::Spn(..))
    }

    /// Whether the value is a number.
    pub fn is_uint32(&self) -> (r: bool)
        ensures
            r == (self@ is Uint32),
    {
        matches!(self, PartialValue::Uint32(..))
    }

    /// Whether the value is the identifier of a change.
    pub fn is_cid(&self) -> (r: bool)
        ensures
            r == (self@ is Cid),
    {
        matches!(self, PartialValue::Cid(..))
    }

    /// Whether the value is a unique id of another directory server.
    pub fn is_nsuniqueid(&self) -> (r: bool)
        ensures
            r == (self@ is Nsuniqueid),
    {
        matches!(self, PartialValue::Nsuniqueid(..))
    }
}

/// A value of an entry: what can be asked of it, and whether the data behind it
/// is as its kind demands.
#[derive(Debug)]
pub struct Value {
    pub partial: PartialValue,
    pub valid: bool,
}

/// The contents of a [`Value`].
pub struct ValueView {
    pub partial: PartialValueView,
    pub valid: bool,
}

impl View for Value {
    type V = ValueView;

    open spec fn view(&self) -> ValueView {
        ValueView { partial: self.partial@, valid: self.valid }
    }
}

impl ValueView {
    /// A value with nothing behind it that could be amiss.
    pub open spec fn plain(partial: PartialValueView) -> ValueView {
        ValueView { partial, valid: true }
    }
}

impl Clone for Value {
    fn clone(&self) -> (r: Self)
        ensures
            r@ == self@,
    {
        Value { partial: self.partial.clone(), valid: self.valid }
    }
}

impl Value {
    /// A value with nothing behind it that could be amiss.
    pub fn new(partial: PartialValue) -> (r: Self)
        ensures
            r@ == ValueView::plain(partial@),
    {
        Value { partial, valid: true }
    }

    /// Text.
    pub fn new_utf8s(s: &str) -> (r: Self)
        ensures
            r@ == ValueView::plain(PartialValueView::Utf8(s@)),
    {
        Value::new(PartialValue::Utf8(s.to_owned()))
    }

    /// Text whose case does not matter.
    pub fn new_iutf8(s: &str) -> (r: Self)
        ensures
            r@ == ValueView::plain(PartialValueView::Iutf8(crate::text::lower(s@))),
    {
        Value::new(PartialValue::new_iutf8(s))
    }

    /// True or false.
    pub fn new_bool(b: bool) -> (r: Self)
        ensures
            r@ == ValueView::plain(PartialValueView::Bool(b)),
    {
        Value::new(PartialValue::Bool(b))
    }

    /// A kind of data, by its name in any case.
    pub fn new_syntaxs(s: &str) -> (r: Option<Self>)
        ensures
            match r {
                Some(v) => {
                    &&& SyntaxType::named(crate::text::upper(s@)) is Some
                    &&& v@ == ValueView::plain(
                        PartialValueView::Syntax(
                            SyntaxType::named(crate::text::upper(s@))->0,
                        ),
                    )
                },
                None => SyntaxType::named(crate::text::upper(s@)) is None,
            },
    {
        match SyntaxType::try_from(s) {
            Ok(t) => Some(Value::new(PartialValue::Syntax(t))),
            Err(_) => None,
        }
    }

    /// A way to index, by its name in any case.
    pub fn new_indexs(s: &str) -> (r: Option<Self>)
        ensures
            match r {
                Some(v) => {
                    &&& IndexType::named(crate::text::upper(s@)) is Some
                    &&& v@ == ValueView::plain(
                        PartialValueView::Index(IndexType::named(crate::text::upper(s@))->0),
                    )
                },
                None => IndexType::named(crate::text::upper(s@)) is None,
            },
    {
        match IndexType::try_from(s) {
            Ok(t) => Some(Value::new(PartialValue::Index(t))),
            Err(_) => None,
        }
    }

    /// Whether the data behind the value is as its kind demands.
    pub fn validate(&self) -> (r: bool)
        ensures
            r == self@.valid,
    {
        self.valid
    }

    /// The text of a value that is text of some kind.
    pub fn to_str(&self) -> (r: Option<&String>)
        ensures
            match r {
                Some(s) => self@.partial.text() == Some(s@),
                None => self@.partial.text() is None,
            },
    {
        self.partial.to_str()
    }
}

/// A set of values, in ascending order.
#[derive(Debug)]
pub struct ValueSet {
    values: Vec<Value>,
}

/// The contents of a list of values.
pub open spec fn value_views(values: Seq<Value>) -> Seq<ValueView> {
    values.map_values(|v: Value| v@)
}

/// Whether `values` holds the value `p`.
pub open spec fn holds(values: Seq<ValueView>, p: PartialValueView) -> bool {
    exists|i: int| 0 <= i < values.len() && (#[trigger] values[i]).partial == p
}

/// Whether values stand in ascending order, so that none occurs twice.
pub open spec fn ascending(values: Seq<ValueView>) -> bool {
    forall|i: int, j: int|
        0 <= i < j < values.len() ==> (#[trigger] values[i]).partial.precedes(
            (#[trigger] values[j]).partial,
        )
}

/// A set after a value has been put in: at its place in the order, unless it is
/// there already.
pub open spec fn inserted(values: Seq<ValueView>, v: ValueView) -> Seq<ValueView>
    decreases values.len(),
{
    if values.len() == 0 {
        seq![v]
    } else if values[0].partial == v.partial {
        values
    } else if v.partial.precedes(values[0].partial) {
        seq![v] + values
    } else {
        seq![values[0]] + inserted(values.drop_first(), v)
    }
}

/// A value goes to the first place that no lesser value has.
proof fn lemma_inserted_at(values: Seq<ValueView>, v: ValueView, i: int)
    requires
        ascending(values),
        0 <= i <= values.len(),
        forall|j: int| 0 <= j < i ==> (#[trigger] values[j]).partial.precedes(v.partial),
        i < values.len() ==> !values[i].partial.precedes(v.partial),
    ensures
        inserted(values, v) == (if i < values.len() && values[i].partial == v.partial {
            values
        } else {
            values.insert(i, v)
        }),
        holds(values, v.partial) <==> i < values.len() && values[i].partial == v.partial,
        ascending(inserted(values, v)),
    decreases values.len(),
{
    let there = i < values.len() && values[i].partial == v.partial;
    law_order_is_irreflexive(v.partial);
    if i > 0 {
        let rest = values.drop_first();
        assert(values[0].partial.precedes(v.partial));
        assert forall|j: int| 0 <= j < i - 1 implies (#[trigger] rest[j]).partial.precedes(
            v.partial,
        ) by {
            assert(rest[j] == values[j + 1]);
        }
        if v.partial.precedes(values[0].partial) {
            law_order_is_transitive(v.partial, values[0].partial, v.partial);
        }
        lemma_inserted_at(rest, v, i - 1);
        if there {
            assert(inserted(values, v) =~= values);
        } else {
            assert(inserted(values, v) =~= values.insert(i, v));
        }
    } else if values.len() > 0 {
        law_order_is_total(values[0].partial, v.partial);
        if !there {
            assert(inserted(values, v) =~= values.insert(0, v));
        }
    } else {
        assert(inserted(values, v) =~= values.insert(0, v));
    }
    assert forall|j: int| i <= j < values.len() && !there implies v.partial.precedes(
        (#[trigger] values[j]).partial,
    ) by {
        law_order_is_total(values[i].partial, v.partial);
        if j > i {
            law_order_is_transitive(v.partial, values[i].partial, values[j].partial);
        }
    }
    if holds(values, v.partial) && !there {
        let j = choose|j: int| 0 <= j < values.len() && (#[trigger] values[j]).partial == v.partial;
        if j < i {
            assert(values[j].partial.precedes(v.partial));
        } else {
            assert(v.partial.precedes(values[j].partial));
        }
    }
    if !there {
        let all = values.insert(i, v);
        assert forall|a: int, b: int| 0 <= a < b < all.len() implies (
        #[trigger] all[a]).partial.precedes((#[trigger] all[b]).partial) by {
            if a < i && b > i {
                assert(values[a].partial.precedes(values[b - 1].partial));
            }
            if a == i {
                assert(v.partial.precedes(values[b - 1].partial));
            }
            if a > i {
                assert(values[a - 1].partial.precedes(values[b - 1].partial));
            }
        }
    }
}

/// The place of a value in a set.
spec fn place_of(values: Seq<ValueView>, p: PartialValueView) -> int
    decreases values.len(),
{
    if values.len() == 0 || !values[0].partial.precedes(p) {
        0
    } else {
        1 + place_of(values.drop_first(), p)
    }
}

/// All that stands before the place of a value is lesser, and what stands there
/// is not.
proof fn lemma_place_of(values: Seq<ValueView>, p: PartialValueView)
    ensures
        0 <= place_of(values, p) <= values.len(),
        forall|j: int| 0 <= j < place_of(values, p) ==> (#[trigger] values[j]).partial.precedes(p),
        place_of(values, p) < values.len() ==> !values[place_of(values, p)].partial.precedes(p),
    decreases values.len(),
{
    if values.len() > 0 && values[0].partial.precedes(p) {
        let rest = values.drop_first();
        lemma_place_of(rest, p);
        assert forall|j: int| 0 <= j < place_of(values, p) implies (
        #[trigger] values[j]).partial.precedes(p) by {
            if j > 0 {
                assert(values[j] == rest[j - 1]);
            }
        }
    }
}

/// A set stays in ascending order when a value is put in, and then holds that
/// value and what it held before.
pub proof fn law_inserted(values: Seq<ValueView>, v: ValueView)
    requires
        ascending(values),
    ensures
        ascending(inserted(values, v)),
        holds(values, v.partial) ==> inserted(values, v) == values,
        forall|w: ValueView| #[trigger]
            inserted(values, v).contains(w) <==> values.contains(w) || (w == v && !holds(
                values,
                v.partial,
            )),
{
    let i = place_of(values, v.partial);
    lemma_place_of(values, v.partial);
    lemma_inserted_at(values, v, i);
    let all = inserted(values, v);
    if !holds(values, v.partial) {
        assert forall|w: ValueView| #[trigger] all.contains(w) <==> values.contains(w) || w == v by {
            if all.contains(w) {
                let k = choose|k: int| 0 <= k < all.len() && all[k] == w;
                if k < i {
                    assert(values[k] == w);
                } else if k > i {
                    assert(values[k - 1] == w);
                }
            }
            if values.contains(w) {
                let k = choose|k: int| 0 <= k < values.len() && values[k] == w;
                if k < i {
                    assert(all[k] == w);
                } else {
                    assert(all[k + 1] == w);
                }
            }
            if w == v {
                assert(all[i] == w);
            }
        }
    }
}

/// There is one ascending list of given values.
pub proof fn law_order_is_unique(s: Seq<ValueView>, t: Seq<ValueView>)
    requires
        ascending(s),
        ascending(t),
        forall|w: ValueView| #[trigger] s.contains(w) <==> t.contains(w),
    ensures
        s == t,
    decreases s.len(),
{
    if s.len() == 0 || t.len() == 0 {
        if s.len() > 0 {
            assert(s.contains(s[0]));
        }
        if t.len() > 0 {
            assert(t.contains(t[0]));
            assert(s.contains(t[0]));
        }
        assert(s =~= t);
    } else {
        assert(s.contains(s[0]));
        assert(t.contains(t[0]));
        assert(s.contains(t[0]));
        let j = choose|j: int| 0 <= j < t.len() && t[j] == s[0];
        let i = choose|i: int| 0 <= i < s.len() && s[i] == t[0];
        if s[0] != t[0] {
            assert(t[0].partial.precedes(t[j].partial));
            assert(s[0].partial.precedes(s[i].partial));
            law_order_is_transitive(s[0].partial, t[0].partial, s[0].partial);
            law_order_is_irreflexive(s[0].partial);
        }
        let x = s.drop_first();
        let y = t.drop_first();
        law_order_is_irreflexive(s[0].partial);
        assert forall|w: ValueView| #[trigger] x.contains(w) <==> y.contains(w) by {
            if x.contains(w) {
                let k = choose|k: int| 0 <= k < x.len() && x[k] == w;
                assert(s[k + 1] == w);
                assert(s.contains(w));
                let h = choose|h: int| 0 <= h < t.len() && t[h] == w;
                assert(s[0].partial.precedes(s[k + 1].partial));
                assert(y[h - 1] == w);
            }
            if y.contains(w) {
                let k = choose|k: int| 0 <= k < y.len() && y[k] == w;
                assert(t[k + 1] == w);
                assert(t.contains(w));
                assert(s.contains(w));
                let h = choose|h: int| 0 <= h < s.len() && s[h] == w;
                assert(t[0].partial.precedes(t[k + 1].partial));
                assert(x[h - 1] == w);
            }
        }
        law_order_is_unique(x, y);
        assert(s =~= seq![s[0]] + x);
        assert(t =~= seq![t[0]] + y);
    }
}

/// The order in which two different values are put into a set does not matter.
pub proof fn law_insertions_commute(values: Seq<ValueView>, v: ValueView, w: ValueView)
    requires
        ascending(values),
        v.partial != w.partial,
    ensures
        inserted(inserted(values, v), w) == inserted(inserted(values, w), v),
{
    let x = inserted(values, v);
    let y = inserted(values, w);
    law_inserted(values, v);
    law_inserted(values, w);
    law_inserted(x, w);
    law_inserted(y, v);
    lemma_holds_inserted(values, v, w.partial);
    lemma_holds_inserted(values, w, v.partial);
    assert forall|u: ValueView| #[trigger]
        inserted(x, w).contains(u) <==> inserted(y, v).contains(u) by {
        assert(x.contains(u) <==> values.contains(u) || (u == v && !holds(values, v.partial)));
        assert(y.contains(u) <==> values.contains(u) || (u == w && !holds(values, w.partial)));
    }
    law_order_is_unique(inserted(x, w), inserted(y, v));
}

/// A set holds what it held before a value was put in, and that value.
pub(crate) proof fn lemma_holds_inserted(
    values: Seq<ValueView>,
    v: ValueView,
    p: PartialValueView,
)
    requires
        ascending(values),
    ensures
        holds(inserted(values, v), p) <==> holds(values, p) || p == v.partial,
{
    law_inserted(values, v);
    let all = inserted(values, v);
    if holds(all, p) {
        let k = choose|k: int| 0 <= k < all.len() && (#[trigger] all[k]).partial == p;
        assert(all.contains(all[k]));
        if values.contains(all[k]) {
            let i = choose|i: int| 0 <= i < values.len() && values[i] == all[k];
            assert(values[i].partial == p);
        }
    }
    if holds(values, p) {
        let k = choose|k: int| 0 <= k < values.len() && (#[trigger] values[k]).partial == p;
        assert(values.contains(values[k]));
        assert(all.contains(values[k]));
        let i = choose|i: int| 0 <= i < all.len() && all[i] == values[k];
        assert(all[i].partial == p);
    } else if p == v.partial {
        assert(all.contains(v));
        let i = choose|i: int| 0 <= i < all.len() && all[i] == v;
        assert(all[i].partial == p);
    }
}

impl View for ValueSet {
    type V = Seq<ValueView>;

    closed spec fn view(&self) -> Seq<ValueView> {
        value_views(self.values@)
    }
}

impl ValueSet {
    #[verifier::type_invariant]
    spec fn inv(&self) -> bool {
        ascending(value_views(self.values@))
    }

    /// The empty set.
    pub fn new() -> (r: Self)
        ensures
            r@ == Seq::<ValueView>::empty(),
    {
        let r = ValueSet { values: Vec::new() };
        assert(r@ =~= Seq::<ValueView>::empty());
        r
    }

    /// The number of values.
    pub fn len(&self) -> (r: usize)
        ensures
            r == self@.len(),
            ascending(self@),
    {
        proof {
            use_type_invariant(self);
        }
        self.values.len()
    }

    /// The value at a place in the order.
    pub fn get(&self, i: usize) -> (r: &Value)
        requires
            i < self@.len(),
        ensures
            r@ == self@[i as int],
    {
        &self.values[i]
    }

    /// Whether the value is in the set.
    pub fn contains(&self, p: &PartialValue) -> (r: bool)
        ensures
            r == holds(self@, p@),
    {
        let mut i: usize = 0;
        while i < self.values.len()
            invariant
                i <= self.values.len(),
                forall|j: int| 0 <= j < i ==> (#[trigger] self@[j]).partial != p@,
            decreases self.values.len() - i,
        {
            if self.values[i].partial.same(p) {
                assert(self@[i as int].partial == p@);
                return true;
            }
            i = i + 1;
        }
        false
    }

    /// Puts a value in at its place in the order, and tells whether it was not
    /// there before.
    pub fn insert(&mut self, v: Value) -> (r: bool)
        ensures
            r == !holds(old(self)@, v@.partial),
            final(self)@ == inserted(old(self)@, v@),
            ascending(final(self)@),
    {
        proof {
            use_type_invariant(&*self);
        }
        let ghost before = self@;
        let mut i: usize = 0;
        while i < self.values.len() && self.values[i].partial.before(&v.partial)
            invariant
                before == self@,
                i <= self.values.len(),
                forall|j: int|
                    0 <= j < i ==> (#[trigger] before[j]).partial.precedes(v@.partial),
            decreases self.values.len() - i,
        {
            assert(before[i as int] == self.values@[i as int]@);
            i = i + 1;
        }
        proof {
            if i < self.values.len() {
                assert(before[i as int] == self.values@[i as int]@);
            }
            lemma_inserted_at(before, v@, i as int);
        }
        if i < self.values.len() && self.values[i].partial.same(&v.partial) {
            return false;
        }
        let mut values: Vec<Value> = Vec::new();
        std::mem::swap(&mut values, &mut self.values);
        values.insert(i, v);
        assert(value_views(values@) =~= before.insert(i as int, v@));
        self.values = values;
        true
    }
}

impl Clone for ValueSet {
    fn clone(&self) -> (r: Self)
        ensures
            r@ == self@,
    {
        proof {
            use_type_invariant(self);
        }
        let mut values: Vec<Value> = Vec::new();
        let mut i: usize = 0;
        while i < self.values.len()
            invariant
                i <= self.values.len(),
                values.len() == i,
                forall|j: int| 0 <= j < i ==> (#[trigger] values@[j])@ == self@[j],
            decreases self.values.len() - i,
        {
            values.push(self.values[i].clone());
            i = i + 1;
        }
        assert(value_views(values@) =~= self@);
        ValueSet { values }
    }
}

} // verus!
