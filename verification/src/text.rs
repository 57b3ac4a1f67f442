//! Text, and changing its case.
use vstd::prelude::*;

verus! {

/// The contents of a list of names.
pub open spec fn texts(names: Seq<String>) -> Seq<Seq<char>> {
    names.map_values(|s: String| s@)
}

/// What `str::to_lowercase` makes of a text.
pub uninterp spec fn lowercase(s: Seq<char>) -> Seq<char>;

/// What `str::to_uppercase` makes of a text.
pub uninterp spec fn uppercase(s: Seq<char>) -> Seq<char>;

/// Whether every character of `s` is in the ASCII range.
pub open spec fn is_ascii_text(s: Seq<char>) -> bool {
    forall|i: int| 0 <= i < s.len() ==> (#[trigger] s[i] as u32) < 0x80
}

/// `c`, or the small letter that stands for it if it is one of `A` to `Z`.
pub open spec fn ascii_lower(c: char) -> char {
    if 'A' <= c <= 'Z' {
        (c as u32 + 0x20) as char
    } else {
        c
    }
}

/// `c`, or the capital letter that stands for it if it is one of `a` to `z`.
pub open spec fn ascii_upper(c: char) -> char {
    if 'a' <= c <= 'z' {
        (c as u32 - 0x20) as char
    } else {
        c
    }
}

/// A text in lower case.
pub open spec fn lower(s: Seq<char>) -> Seq<char> {
    if is_ascii_text(s) {
        s.map_values(|c: char| ascii_lower(c))
    } else {
        lowercase(s)
    }
}

/// A text in upper case.
pub open spec fn upper(s: Seq<char>) -> Seq<char> {
    if is_ascii_text(s) {
        s.map_values(|c: char| ascii_upper(c))
    } else {
        uppercase(s)
    }
}

/// The lower case form of a text.
///
/// Trusted: `str::to_lowercase` depends on the text alone, which `lowercase`
/// names. Of ASCII text it changes the letters `A` to `Z` and nothing else. Of
/// other text nothing more is said, nor that a second time changes nothing.
#[verifier::external_body]
pub(crate) fn to_lowercase(s: &str) -> (r: String)
    ensures
        r@ == lowercase(s@),
        is_ascii_text(s@) ==> r@ == s@.map_values(|c: char| ascii_lower(c)),
{
    s.to_lowercase()
}

/// The upper case form of a text.
///
/// Trusted: `str::to_uppercase` depends on the text alone, which `uppercase`
/// names. Of ASCII text it changes the letters `a` to `z` and nothing else. Of
/// other text nothing more is said.
#[verifier::external_body]
pub(crate) fn to_uppercase(s: &str) -> (r: String)
    ensures
        r@ == uppercase(s@),
        is_ascii_text(s@) ==> r@ == s@.map_values(|c: char| ascii_upper(c)),
{
    s.to_uppercase()
}

/// A character in lower case stays as it is.
proof fn lemma_ascii_lower_again(c: char)
    requires
        (c as u32) < 0x80,
    ensures
        (ascii_lower(c) as u32) < 0x80,
        ascii_lower(ascii_lower(c)) == ascii_lower(c),
{
}

/// To bring a text to lower case a second time changes nothing.
pub proof fn law_lower_again(s: Seq<char>)
    requires
        is_ascii_text(s),
    ensures
        lower(lower(s)) == lower(s),
{
    let t = lower(s);
    assert forall|i: int| 0 <= i < t.len() implies (#[trigger] t[i] as u32) < 0x80 && ascii_lower(
        t[i],
    ) == t[i] by {
        assert((s[i] as u32) < 0x80);
        lemma_ascii_lower_again(s[i]);
    }
    assert(lower(t) =~= t);
}

} // verus!
