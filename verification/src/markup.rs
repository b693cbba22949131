//! Where tags open in a text, and how that carries over when texts are
//! joined.

use vstd::prelude::*;
use crate::decimal::{decimal, is_digit, lemma_decimal_digits};
use crate::escape::{escape, lemma_escape_is_escaped, occurs_at};

verus! {

/// No tag whose name begins with `c` opens in `s`: every `<` of `s` is
/// followed, within `s`, by another character than `c`.
pub open spec fn opens_no_tag(s: Seq<char>, c: char) -> bool {
    forall|i: int| 0 <= i < s.len() && #[trigger] s[i] == '<' ==> i + 1 < s.len() && s[i + 1] != c
}

/// `s` holds no `<` at all.
pub open spec fn has_no_tag(s: Seq<char>) -> bool {
    forall|i: int| 0 <= i < s.len() ==> #[trigger] s[i] != '<'
}

/// The only `<` of `s` stands at offset `at`.
pub open spec fn has_one_tag(s: Seq<char>, at: int) -> bool {
    &&& 0 <= at < s.len()
    &&& forall|i: int| 0 <= i < s.len() ==> (#[trigger] s[i] == '<' <==> i == at)
}

/// Where no such tag opens in either of two texts, none opens in the two
/// joined: a `<` and the character behind it never lie in different parts.
pub proof fn lemma_opens_no_tag_concat(a: Seq<char>, b: Seq<char>, c: char)
    requires
        opens_no_tag(a, c),
        opens_no_tag(b, c),
    ensures
        opens_no_tag(a + b, c),
{
    let t = a + b;
    assert forall|i: int| 0 <= i < t.len() && #[trigger] t[i] == '<' implies i + 1 < t.len() && t[i
        + 1] != c by {
        if i < a.len() {
            assert(a[i] == '<');
            assert(t[i + 1] == a[i + 1]);
        } else {
            assert(b[i - a.len()] == '<');
            assert(t[i + 1] == b[i + 1 - a.len()]);
        }
    }
}

/// A text without `<` opens no tag.
pub proof fn lemma_no_tag_opens_none(s: Seq<char>, c: char)
    requires
        has_no_tag(s),
    ensures
        opens_no_tag(s, c),
{
}

/// Escaped text holds no `<`.
pub proof fn lemma_escape_has_no_tag(s: Seq<char>)
    ensures
        has_no_tag(escape(s)),
{
    lemma_escape_is_escaped(s);
}

/// A number in decimal notation holds no `<`.
pub proof fn lemma_decimal_has_no_tag(n: nat)
    ensures
        has_no_tag(decimal(n)),
{
    lemma_decimal_digits(n);
    assert forall|i: int| 0 <= i < decimal(n).len() implies #[trigger] decimal(n)[i] != '<' by {
        assert(is_digit(decimal(n)[i]));
    }
}

/// A text with one `<`, followed by a text with none, has that one `<`.
pub proof fn lemma_has_one_tag_then_none(a: Seq<char>, at: int, b: Seq<char>)
    requires
        has_one_tag(a, at),
        has_no_tag(b),
    ensures
        has_one_tag(a + b, at),
{
    let t = a + b;
    assert forall|i: int| 0 <= i < t.len() implies (#[trigger] t[i] == '<' <==> i == at) by {
        if i < a.len() {
            assert(t[i] == a[i]);
        } else {
            assert(t[i] == b[i - a.len()]);
        }
    }
}

/// What stands in the middle of a joined text stands in the whole, further
/// along by the length of what comes before.
pub proof fn lemma_occurs_in_middle(
    before: Seq<char>,
    mid: Seq<char>,
    after: Seq<char>,
    pat: Seq<char>,
    i: int,
)
    requires
        occurs_at(mid, pat, i),
    ensures
        occurs_at(before + mid + after, pat, before.len() + i),
{
    let t = before + mid + after;
    assert(t.subrange(before.len() + i, before.len() + i + pat.len()) =~= mid.subrange(
        i,
        i + pat.len(),
    ));
}

/// A pattern that begins with `<` and goes on with `c` stands only where a
/// tag opens whose name begins with `c`.
pub proof fn lemma_occurrence_opens_tag(doc: Seq<char>, pat: Seq<char>, c: char, i: int)
    requires
        pat.len() >= 2,
        pat[0] == '<',
        pat[1] == c,
        occurs_at(doc, pat, i),
    ensures
        0 <= i,
        i + 1 < doc.len(),
        doc[i] == '<',
        doc[i + 1] == c,
{
    let found = doc.subrange(i, i + pat.len());
    assert(found[0] == doc[i]);
    assert(found[1] == doc[i + 1]);
}

} // verus!
