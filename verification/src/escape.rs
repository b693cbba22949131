//! Escaping of text for XML character data and attribute values.
//!
//! The five characters that XML markup is made of are replaced by the
//! predefined entity references; every other character stands for itself.

use vstd::prelude::*;

verus! {

/// What one character of text becomes in a document.
pub open spec fn escape_char(c: char) -> Seq<char> {
    if c == '&' {
        "&amp;"@
    } else if c == '<' {
        "&lt;"@
    } else if c == '>' {
        "&gt;"@
    } else if c == '"' {
        "&quot;"@
    } else if c == '\'' {
        "&apos;"@
    } else {
        seq![c]
    }
}

/// The escaped form of a text: the escaped forms of its characters, in order.
pub open spec fn escape(s: Seq<char>) -> Seq<char>
    decreases s.len(),
{
    if s.len() == 0 {
        Seq::empty()
    } else {
        escape(s.drop_last()) + escape_char(s.last())
    }
}

/// The text that a reader of the document recovers from character data:
/// each predefined entity reference stands for its character, anything else
/// for itself.
pub open spec fn unescape(t: Seq<char>) -> Seq<char>
    decreases t.len(),
{
    if t.len() == 0 {
        Seq::empty()
    } else if t.len() >= 5 && t.subrange(0, 5) == "&amp;"@ {
        seq!['&'] + unescape(t.skip(5))
    } else if t.len() >= 4 && t.subrange(0, 4) == "&lt;"@ {
        seq!['<'] + unescape(t.skip(4))
    } else if t.len() >= 4 && t.subrange(0, 4) == "&gt;"@ {
        seq!['>'] + unescape(t.skip(4))
    } else if t.len() >= 6 && t.subrange(0, 6) == "&quot;"@ {
        seq!['"'] + unescape(t.skip(6))
    } else if t.len() >= 6 && t.subrange(0, 6) == "&apos;"@ {
        seq!['\''] + unescape(t.skip(6))
    } else {
        seq![t[0]] + unescape(t.skip(1))
    }
}

/// `pat` stands in `doc` at offset `i`.
pub open spec fn occurs_at(doc: Seq<char>, pat: Seq<char>, i: int) -> bool {
    0 <= i && i + pat.len() <= doc.len() && doc.subrange(i, i + pat.len()) == pat
}

/// One of the five predefined entity references stands in `t` at offset `i`.
pub open spec fn entity_at(t: Seq<char>, i: int) -> bool {
    ||| occurs_at(t, "&amp;"@, i)
    ||| occurs_at(t, "&lt;"@, i)
    ||| occurs_at(t, "&gt;"@, i)
    ||| occurs_at(t, "&quot;"@, i)
    ||| occurs_at(t, "&apos;"@, i)
}

/// `t` can stand between two tags, or between the quotes of an attribute,
/// without being taken for markup: it holds no angle bracket and no quote,
/// and each ampersand in it opens an entity reference.
pub open spec fn is_escaped(t: Seq<char>) -> bool {
    forall|i: int|
        0 <= i < t.len() ==> {
            &&& #[trigger] t[i] != '<'
            &&& t[i] != '>'
            &&& t[i] != '"'
            &&& t[i] != '\''
            &&& (t[i] == '&' ==> entity_at(t, i))
        }
}

proof fn reveal_entities()
    ensures
        "&amp;"@ =~= seq!['&', 'a', 'm', 'p', ';'],
        "&lt;"@ =~= seq!['&', 'l', 't', ';'],
        "&gt;"@ =~= seq!['&', 'g', 't', ';'],
        "&quot;"@ =~= seq!['&', 'q', 'u', 'o', 't', ';'],
        "&apos;"@ =~= seq!['&', 'a', 'p', 'o', 's', ';'],
{
    reveal_strlit("&amp;");
    reveal_strlit("&lt;");
    reveal_strlit("&gt;");
    reveal_strlit("&quot;");
    reveal_strlit("&apos;");
}

/// Escaping goes character by character, so it distributes over `+`.
pub proof fn lemma_escape_concat(a: Seq<char>, b: Seq<char>)
    ensures
        escape(a + b) == escape(a) + escape(b),
    decreases b.len(),
{
    if b.len() == 0 {
        assert(a + b =~= a);
        assert(escape(a) + escape(b) =~= escape(a));
    } else {
        lemma_escape_concat(a, b.drop_last());
        assert((a + b).drop_last() =~= a + b.drop_last());
        assert((a + b).last() == b.last());
        assert(escape(a + b) =~= escape(a) + escape(b));
    }
}

/// The escaped form of a text that begins with `c` begins with the escaped
/// form of `c`.
pub proof fn lemma_escape_first(s: Seq<char>)
    requires
        s.len() > 0,
    ensures
        escape(s) == escape_char(s[0]) + escape(s.drop_first()),
{
    let head = seq![s[0]];
    assert(head.drop_last() =~= Seq::<char>::empty());
    assert(escape(head.drop_last()) =~= Seq::<char>::empty());
    assert(escape(head) =~= escape_char(s[0]));
    assert(head + s.drop_first() =~= s);
    lemma_escape_concat(head, s.drop_first());
}

proof fn lemma_unescape_first(c: char, rest: Seq<char>)
    ensures
        unescape(escape_char(c) + rest) == seq![c] + unescape(rest),
{
    reveal_entities();
    let e = escape_char(c);
    let t = e + rest;
    assert(t.skip(e.len() as int) =~= rest);
    assert(t.subrange(0, e.len() as int) =~= e);
    assert(t[0] == e[0]);
    if c == '&' {
    } else if c == '<' {
        assert(t.len() >= 5 ==> t.subrange(0, 5)[1] == 'l');
    } else if c == '>' {
        assert(t.len() >= 5 ==> t.subrange(0, 5)[1] == 'g');
        assert(t.subrange(0, 4)[1] == 'g');
    } else if c == '"' {
        assert(t.subrange(0, 5)[1] == 'q');
        assert(t.subrange(0, 4)[1] == 'q');
    } else if c == '\'' {
        assert(t.subrange(0, 5)[2] == 'p');
        assert(t.subrange(0, 4)[1] == 'a');
        assert(t.subrange(0, 6)[1] == 'a');
    } else {
        assert(t.len() >= 5 ==> t.subrange(0, 5)[0] == c);
        assert(t.len() >= 4 ==> t.subrange(0, 4)[0] == c);
        assert(t.len() >= 6 ==> t.subrange(0, 6)[0] == c);
    }
}

/// Decoding the escaped form of a text gives the text back.
pub proof fn lemma_unescape_escape(s: Seq<char>)
    ensures
        unescape(escape(s)) == s,
    decreases s.len(),
{
    if s.len() > 0 {
        lemma_escape_first(s);
        lemma_unescape_first(s[0], escape(s.drop_first()));
        lemma_unescape_escape(s.drop_first());
        assert(seq![s[0]] + s.drop_first() =~= s);
    }
}

proof fn lemma_escape_char_is_escaped(c: char)
    ensures
        is_escaped(escape_char(c)),
        escape_char(c).len() >= 1,
{
    reveal_entities();
    let e = escape_char(c);
    assert(e.subrange(0, e.len() as int) =~= e);
}

proof fn lemma_is_escaped_concat(a: Seq<char>, b: Seq<char>)
    requires
        is_escaped(a),
        is_escaped(b),
    ensures
        is_escaped(a + b),
{
    let t = a + b;
    reveal_entities();
    assert forall|i: int| 0 <= i < t.len() && #[trigger] t[i] == '&' implies entity_at(t, i) by {
        if i < a.len() {
            assert(a[i] == '&');
            assert(entity_at(a, i));
            assert forall|p: Seq<char>| occurs_at(a, p, i) implies occurs_at(t, p, i) by {
                assert(t.subrange(i, i + p.len()) =~= a.subrange(i, i + p.len()));
            }
        } else {
            let j = i - a.len();
            assert(b[j] == '&');
            assert(entity_at(b, j));
            assert forall|p: Seq<char>| occurs_at(b, p, j) implies occurs_at(t, p, i) by {
                assert(t.subrange(i, i + p.len()) =~= b.subrange(j, j + p.len()));
            }
        }
    }
    assert forall|i: int| 0 <= i < t.len() implies #[trigger] t[i] != '<' && t[i] != '>' && t[i]
        != '"' && t[i] != '\'' by {
        if i < a.len() {
            assert(t[i] == a[i]);
        } else {
            assert(t[i] == b[i - a.len()]);
        }
    }
}

/// Escaped text is never taken for markup.
pub proof fn lemma_escape_is_escaped(s: Seq<char>)
    ensures
        is_escaped(escape(s)),
    decreases s.len(),
{
    if s.len() > 0 {
        lemma_escape_is_escaped(s.drop_last());
        lemma_escape_char_is_escaped(s.last());
        lemma_is_escaped_concat(escape(s.drop_last()), escape_char(s.last()));
    }
}

/// Appends the escaped form of `text` to `out`.
pub fn push_escaped(out: &mut String, text: &str)
    ensures
        final(out)@ == old(out)@ + escape(text@),
{
    let ghost before = out@;
    assert(text@.take(0) =~= Seq::<char>::empty());
    assert(before + escape(text@.take(0)) =~= before);
    for c in it: text.chars()
        invariant
            it.seq() == text@,
            out@ == before + escape(text@.take(it.index() as int)),
    {
        let ghost sofar = text@.take(it.index() as int);
        let ghost next = text@.take(it.index() + 1);
        assert(next.drop_last() =~= sofar);
        assert(next.last() == c);
        assert(before + escape(next) =~= before + escape(sofar) + escape_char(c));
        if c == '&' {
            out.append("&amp;");
        } else if c == '<' {
            out.append("&lt;");
        } else if c == '>' {
            out.append("&gt;");
        } else if c == '"' {
            out.append("&quot;");
        } else if c == '\'' {
            out.append("&apos;");
        } else {
            out.push(c);
            assert(before + escape(sofar) + seq![c] =~= (before + escape(sofar)).push(c));
        }
    }
    assert(text@.take(text@.len() as int) =~= text@);
}

/// The escaped form of `text`, as a string of its own.
pub fn xml_escape(text: &str) -> (escaped: String)
    ensures
        escaped@ == escape(text@),
{
    let mut escaped = String::new();
    push_escaped(&mut escaped, text);
    assert(Seq::<char>::empty() + escape(text@) =~= escape(text@));
    escaped
}

} // verus!
