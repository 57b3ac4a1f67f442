//! The order in which the values of a set stand.
use crate::foreign::uuid_as_number;
use crate::value::{IndexType, PartialValue, SyntaxType};
use vstd::prelude::*;

verus! {

use crate::value::PartialValueView;

/// Whether a text comes before another: at the first place where they differ it
/// has the character with the lower code point, or it ends there.
pub open spec fn text_precedes(s: Seq<char>, t: Seq<char>) -> bool
    decreases s.len(),
{
    if t.len() == 0 {
        false
    } else if s.len() == 0 {
        true
    } else if s[0] == t[0] {
        text_precedes(s.drop_first(), t.drop_first())
    } else {
        s[0] < t[0]
    }
}

/// Whether a text comes before another.
///
/// Trusted: `<` on `str` orders texts lexicographically by their bytes, which is
/// by the code points of their characters.
#[verifier::external_body]
pub(crate) fn text_before(s: &str, t: &str) -> (r: bool)
    ensures
        r == text_precedes(s@, t@),
{
    s < t
}

/// No text comes before itself.
pub(crate) proof fn lemma_text_irreflexive(s: Seq<char>)
    ensures
        !text_precedes(s, s),
    decreases s.len(),
{
    if s.len() > 0 {
        lemma_text_irreflexive(s.drop_first());
    }
}

/// What comes before a text comes before all that this comes before.
pub(crate) proof fn lemma_text_transitive(s: Seq<char>, t: Seq<char>, u: Seq<char>)
    requires
        text_precedes(s, t),
        text_precedes(t, u),
    ensures
        text_precedes(s, u),
    decreases s.len(),
{
    if s.len() > 0 && s[0] == t[0] && t[0] == u[0] {
        lemma_text_transitive(s.drop_first(), t.drop_first(), u.drop_first());
    }
}

/// Of two different texts one comes before the other.
pub(crate) proof fn lemma_text_total(s: Seq<char>, t: Seq<char>)
    ensures
        text_precedes(s, t) || text_precedes(t, s) || s == t,
    decreases s.len(),
{
    if s.len() == 0 || t.len() == 0 {
        assert(s.len() == 0 && t.len() == 0 ==> s =~= t);
    } else if s[0] == t[0] {
        lemma_text_total(s.drop_first(), t.drop_first());
        if s.drop_first() == t.drop_first() {
            assert(s =~= seq![s[0]] + s.drop_first());
            assert(t =~= seq![t[0]] + t.drop_first());
        }
    }
}

/// A text comes before another that goes on where it ends, or that has a greater
/// character at the first place where they differ.
pub(crate) proof fn lemma_text_precedes_at(s: Seq<char>, t: Seq<char>, k: int)
    requires
        0 <= k <= s.len(),
        k < t.len(),
        forall|i: int| 0 <= i < k ==> #[trigger] s[i] == t[i],
        k == s.len() || s[k] < t[k],
    ensures
        text_precedes(s, t),
    decreases k,
{
    if k > 0 {
        assert(s[0] == t[0]);
        assert forall|i: int| 0 <= i < k - 1 implies #[trigger] s.drop_first()[i]
            == t.drop_first()[i] by {
            assert(s[i + 1] == t[i + 1]);
        }
        lemma_text_precedes_at(s.drop_first(), t.drop_first(), k - 1);
    }
}

impl IndexType {
    /// The place of a way to index among all.
    pub open spec fn place(self) -> u8 {
        match self {
            IndexType::EQUALITY => 0,
            IndexType::PRESENCE => 1,
            IndexType::SUBSTRING => 2,
        }
    }

    fn get_place(&self) -> (r: u8)
        ensures
            r == self.place(),
    {
        match self {
            IndexType::EQUALITY => 0,
            IndexType::PRESENCE => 1,
            IndexType::SUBSTRING => 2,
        }
    }
}

impl SyntaxType {
    /// The place of a kind of data among all.
    pub open spec fn place(self) -> u8 {
        match self {
            SyntaxType::UTF8STRING => 0,
            SyntaxType::UTF8STRING_INSENSITIVE => 1,
            SyntaxType::UTF8STRING_INAME => 2,
            SyntaxType::UUID => 3,
            SyntaxType::BOOLEAN => 4,
            SyntaxType::SYNTAX_ID => 5,
            SyntaxType::INDEX_ID => 6,
            SyntaxType::REFERENCE_UUID => 7,
            SyntaxType::JSON_FILTER => 8,
            SyntaxType::CREDENTIAL => 9,
            SyntaxType::RADIUS_UTF8STRING => 10,
            SyntaxType::SSHKEY => 11,
            SyntaxType::SERVICE_PRINCIPLE_NAME => 12,
            SyntaxType::UINT32 => 13,
            SyntaxType::CID => 14,
            SyntaxType::NSUNIQUEID => 15,
        }
    }

    fn get_place(&self) -> (r: u8)
        ensures
            r == self.place(),
    {
        match self {
            SyntaxType::UTF8STRING => 0,
            SyntaxType::UTF8STRING_INSENSITIVE => 1,
            SyntaxType::UTF8STRING_INAME => 2,
            SyntaxType::UUID => 3,
            SyntaxType::BOOLEAN => 4,
            SyntaxType::SYNTAX_ID => 5,
            SyntaxType::INDEX_ID => 6,
            SyntaxType::REFERENCE_UUID => 7,
            SyntaxType::JSON_FILTER => 8,
            SyntaxType::CREDENTIAL => 9,
            SyntaxType::RADIUS_UTF8STRING => 10,
            SyntaxType::SSHKEY => 11,
            SyntaxType::SERVICE_PRINCIPLE_NAME => 12,
            SyntaxType::UINT32 => 13,
            SyntaxType::CID => 14,
            SyntaxType::NSUNIQUEID => 15,
        }
    }
}

impl PartialValueView {
    /// The place of the kind of a value among all kinds.
    pub open spec fn rank(self) -> u8 {
        match self {
            PartialValueView::Utf8(_) => 0,
            PartialValueView::Iutf8(_) => 1,
            PartialValueView::Iname(_) => 2,
            PartialValueView::Uuid(_) => 3,
            PartialValueView::Bool(_) => 4,
            PartialValueView::Syntax(_) => 5,
            PartialValueView::Index(_) => 6,
            PartialValueView::Refer(_) => 7,
            PartialValueView::JsonFilt(_) => 8,
            PartialValueView::Cred(_) => 9,
            PartialValueView::SshKey(_) => 10,
            PartialValueView::RadiusCred => 11,
            PartialValueView::Spn(_, _) => 12,
            PartialValueView::Uint32(_) => 13,
            PartialValueView::Cid(_) => 14,
            PartialValueView::Nsuniqueid(_) => 15,
        }
    }

    /// Whether a value comes before another: by their kinds, and if they are of
    /// one kind by what they hold.
    pub open spec fn precedes(self, other: Self) -> bool {
        match (self, other) {
            (PartialValueView::Utf8(a), PartialValueView::Utf8(b)) => text_precedes(a, b),
            (PartialValueView::Iutf8(a), PartialValueView::Iutf8(b)) => text_precedes(a, b),
            (PartialValueView::Iname(a), PartialValueView::Iname(b)) => text_precedes(a, b),
            (PartialValueView::Uuid(a), PartialValueView::Uuid(b)) => a < b,
            (PartialValueView::Bool(a), PartialValueView::Bool(b)) => !a && b,
            (PartialValueView::Syntax(a), PartialValueView::Syntax(b)) => a.place() < b.place(),
            (PartialValueView::Index(a), PartialValueView::Index(b)) => a.place() < b.place(),
            (PartialValueView::Refer(a), PartialValueView::Refer(b)) => a < b,
            (PartialValueView::JsonFilt(a), PartialValueView::JsonFilt(b)) => text_precedes(a, b),
            (PartialValueView::Cred(a), PartialValueView::Cred(b)) => text_precedes(a, b),
            (PartialValueView::SshKey(a), PartialValueView::SshKey(b)) => text_precedes(a, b),
            (PartialValueView::Spn(a, c), PartialValueView::Spn(b, d)) => text_precedes(a, b) || (a
                == b && text_precedes(c, d)),
            (PartialValueView::Uint32(a), PartialValueView::Uint32(b)) => a < b,
            (PartialValueView::Cid(a), PartialValueView::Cid(b)) => a < b,
            (PartialValueView::Nsuniqueid(a), PartialValueView::Nsuniqueid(b)) => text_precedes(
                a,
                b,
            ),
            _ => self.rank() < other.rank(),
        }
    }
}

impl PartialValue {
    fn get_rank(&self) -> (r: u8)
        ensures
            r == self@.rank(),
    {
        match self {
            PartialValue::Utf8(_) => 0,
            PartialValue::Iutf8(_) => 1,
            PartialValue::Iname(_) => 2,
            PartialValue::Uuid(_) => 3,
            PartialValue::Bool(_) => 4,
            PartialValue::Syntax(_) => 5,
            PartialValue::Index(_) => 6,
            PartialValue::Refer(_) => 7,
            PartialValue::JsonFilt(_) => 8,
            PartialValue::Cred(_) => 9,
            PartialValue::SshKey(_) => 10,
            PartialValue::RadiusCred => 11,
            PartialValue::Spn(_, _) => 12,
            PartialValue::Uint32(_) => 13,
            PartialValue::Cid(_) => 14,
            PartialValue::Nsuniqueid(_) => 15,
        }
    }

    /// Whether the value comes before another.
    pub fn before(&self, other: &Self) -> (r: bool)
        ensures
            r == self@.precedes(other@),
    {
        match (self, other) {
            (PartialValue::Utf8(a), PartialValue::Utf8(b)) => text_before(a.as_str(), b.as_str()),
            (PartialValue::Iutf8(a), PartialValue::Iutf8(b)) => text_before(
                a.as_str(),
                b.as_str(),
            ),
            (PartialValue::Iname(a), PartialValue::Iname(b)) => text_before(
                a.as_str(),
                b.as_str(),
            ),
            (PartialValue::Uuid(a), PartialValue::Uuid(b)) => uuid_as_number(a) < uuid_as_number(
                b,
            ),
            (PartialValue::Bool(a), PartialValue::Bool(b)) => !*a && *b,
            (PartialValue::Syntax(a), PartialValue::Syntax(b)) => a.get_place() < b.get_place(),
            (PartialValue::Index(a), PartialValue::Index(b)) => a.get_place() < b.get_place(),
            (PartialValue::Refer(a), PartialValue::Refer(b)) => uuid_as_number(a)
                < uuid_as_number(b),
            (PartialValue::JsonFilt(a), PartialValue::JsonFilt(b)) => text_before(
                a.as_str(),
                b.as_str(),
            ),
            (PartialValue::Cred(a), PartialValue::Cred(b)) => text_before(a.as_str(), b.as_str()),
            (PartialValue::SshKey(a), PartialValue::SshKey(b)) => text_before(
                a.as_str(),
                b.as_str(),
            ),
            (PartialValue::Spn(a, c), PartialValue::Spn(b, d)) => text_before(
                a.as_str(),
                b.as_str(),
            ) || (*a == *b && text_before(c.as_str(), d.as_str())),
            (PartialValue::Uint32(a), PartialValue::Uint32(b)) => *a < *b,
            (PartialValue::Cid(a), PartialValue::Cid(b)) => *a < *b,
            (PartialValue::Nsuniqueid(a), PartialValue::Nsuniqueid(b)) => text_before(
                a.as_str(),
                b.as_str(),
            ),
            _ => self.get_rank() < other.get_rank(),
        }
    }
}

/// No value comes before itself.
pub proof fn law_order_is_irreflexive(a: PartialValueView)
    ensures
        !a.precedes(a),
{
    match a {
        PartialValueView::Utf8(s) => lemma_text_irreflexive(s),
        PartialValueView::Iutf8(s) => lemma_text_irreflexive(s),
        PartialValueView::Iname(s) => lemma_text_irreflexive(s),
        PartialValueView::JsonFilt(s) => lemma_text_irreflexive(s),
        PartialValueView::Cred(s) => lemma_text_irreflexive(s),
        PartialValueView::SshKey(s) => lemma_text_irreflexive(s),
        PartialValueView::Nsuniqueid(s) => lemma_text_irreflexive(s),
        PartialValueView::Spn(s, r) => {
            lemma_text_irreflexive(s);
            lemma_text_irreflexive(r);
        },
        _ => {},
    }
}

/// What comes before a value comes before all that this comes before.
pub proof fn law_order_is_transitive(a: PartialValueView, b: PartialValueView, c: PartialValueView)
    requires
        a.precedes(b),
        b.precedes(c),
    ensures
        a.precedes(c),
{
    match (a, b, c) {
        (
            PartialValueView::Utf8(s),
            PartialValueView::Utf8(t),
            PartialValueView::Utf8(u),
        ) => lemma_text_transitive(s, t, u),
        (
            PartialValueView::Iutf8(s),
            PartialValueView::Iutf8(t),
            PartialValueView::Iutf8(u),
        ) => lemma_text_transitive(s, t, u),
        (
            PartialValueView::Iname(s),
            PartialValueView::Iname(t),
            PartialValueView::Iname(u),
        ) => lemma_text_transitive(s, t, u),
        (
            PartialValueView::JsonFilt(s),
            PartialValueView::JsonFilt(t),
            PartialValueView::JsonFilt(u),
        ) => lemma_text_transitive(s, t, u),
        (
            PartialValueView::Cred(s),
            PartialValueView::Cred(t),
            PartialValueView::Cred(u),
        ) => lemma_text_transitive(s, t, u),
        (
            PartialValueView::SshKey(s),
            PartialValueView::SshKey(t),
            PartialValueView::SshKey(u),
        ) => lemma_text_transitive(s, t, u),
        (
            PartialValueView::Nsuniqueid(s),
            PartialValueView::Nsuniqueid(t),
            PartialValueView::Nsuniqueid(u),
        ) => lemma_text_transitive(s, t, u),
        (
            PartialValueView::Spn(s, x),
            PartialValueView::Spn(t, y),
            PartialValueView::Spn(u, z),
        ) => {
            if text_precedes(s, t) && text_precedes(t, u) {
                lemma_text_transitive(s, t, u);
            }
            if text_precedes(x, y) && text_precedes(y, z) {
                lemma_text_transitive(x, y, z);
            }
        },
        _ => {},
    }
}

/// Of two different values one comes before the other.
pub proof fn law_order_is_total(a: PartialValueView, b: PartialValueView)
    ensures
        a.precedes(b) || b.precedes(a) || a == b,
{
    match (a, b) {
        (PartialValueView::Utf8(s), PartialValueView::Utf8(t)) => lemma_text_total(s, t),
        (PartialValueView::Iutf8(s), PartialValueView::Iutf8(t)) => lemma_text_total(s, t),
        (PartialValueView::Iname(s), PartialValueView::Iname(t)) => lemma_text_total(s, t),
        (PartialValueView::JsonFilt(s), PartialValueView::JsonFilt(t)) => lemma_text_total(s, t),
        (PartialValueView::Cred(s), PartialValueView::Cred(t)) => lemma_text_total(s, t),
        (PartialValueView::SshKey(s), PartialValueView::SshKey(t)) => lemma_text_total(s, t),
        (PartialValueView::Nsuniqueid(s), PartialValueView::Nsuniqueid(t)) => lemma_text_total(
            s,
            t,
        ),
        (PartialValueView::Spn(s, x), PartialValueView::Spn(t, y)) => {
            lemma_text_total(s, t);
            lemma_text_total(x, y);
        },
        _ => {},
    }
}

} // verus!
