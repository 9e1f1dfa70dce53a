//! XML entity escaping.
//!
//! The wire format embeds one XML document as entity-escaped text inside
//! another, so escaping (and what one round of unescaping recovers) is the
//! heart of the envelope builder's contract.

use vstd::prelude::*;
use vstd::string::StringExecFns;
use crate::strutil::push_char;

verus! {

/// The five characters that XML entity escaping replaces.
pub open spec fn is_special(c: char) -> bool {
    c == '&' || c == '<' || c == '>' || c == '"' || c == '\''
}

/// A string with no XML-special characters.
pub open spec fn no_specials(s: Seq<char>) -> bool {
    forall|i: int| 0 <= i < s.len() ==> !is_special(#[trigger] s[i])
}

/// How one character is escaped: the XML entity for the five special
/// characters, the character itself otherwise.
pub open spec fn escape_char(c: char) -> Seq<char> {
    if c == '&' {
        "&amp;"@
    } else if c == '<' {
        "&lt;"@
    } else if c == '>' {
        "&gt;"@
    } else if c == '"' {
        "&quot;"@
    } else if c == '\'' {
        "&apos;"@
    } else {
        seq![c]
    }
}

/// Entity-escaping of a whole string, character by character.
///
/// Replacing `&` before the other four characters, as the escaper does, never
/// re-escapes an ampersand introduced by a later replacement, so the result
/// is exactly this per-character substitution.
pub open spec fn escape_text(s: Seq<char>) -> Seq<char>
    decreases s.len(),
{
    if s.len() == 0 {
        Seq::empty()
    } else {
        escape_char(s[0]) + escape_text(s.skip(1))
    }
}

/// One round of entity unescaping: each `&amp;` `&lt;` `&gt;` `&quot;`
/// `&apos;` becomes its character; everything else is copied.
pub open spec fn unescape_once(s: Seq<char>) -> Seq<char>
    decreases s.len(),
{
    if s.len() == 0 {
        Seq::empty()
    } else if s.len() >= 5 && s.subrange(0, 5) == "&amp;"@ {
        seq!['&'] + unescape_once(s.skip(5))
    } else if s.len() >= 4 && s.subrange(0, 4) == "&lt;"@ {
        seq!['<'] + unescape_once(s.skip(4))
    } else if s.len() >= 4 && s.subrange(0, 4) == "&gt;"@ {
        seq!['>'] + unescape_once(s.skip(4))
    } else if s.len() >= 6 && s.subrange(0, 6) == "&quot;"@ {
        seq!['"'] + unescape_once(s.skip(6))
    } else if s.len() >= 6 && s.subrange(0, 6) == "&apos;"@ {
        seq!['\''] + unescape_once(s.skip(6))
    } else {
        seq![s[0]] + unescape_once(s.skip(1))
    }
}

/// Replace `&` `<` `>` `"` `'` by their XML entities, ampersand first.
pub fn escape_xml(text: &str) -> (r: String)
    ensures
        r@ == escape_text(text@),
{
    let mut out = String::new();
    for c in it: text.chars()
        invariant
            out@ == escape_text(it.seq().take(it.index() as int)),
            it.seq() == text@,
    {
        proof {
            lemma_escape_text_snoc(it.seq().take(it.index() as int), c);
            assert(it.seq().take(it.index() as int).push(c) =~= it.seq().take(
                it.index() as int + 1,
            ));
        }
        if c == '&' {
            out.append("&amp;");
        } else if c == '<' {
            out.append("&lt;");
        } else if c == '>' {
            out.append("&gt;");
        } else if c == '"' {
            out.append("&quot;");
        } else if c == '\'' {
            out.append("&apos;");
        } else {
            push_char(&mut out, c);
        }
    }
    proof {
        assert(text@.take(text@.len() as int) =~= text@);
    }
    out
}

/// Escaping one more character at the end appends that character's escape.
pub proof fn lemma_escape_text_snoc(s: Seq<char>, c: char)
    ensures
        escape_text(s.push(c)) == escape_text(s) + escape_char(c),
    decreases s.len(),
{
    if s.len() == 0 {
        let p = s.push(c);
        assert(p.len() == 1);
        assert(p[0] == c);
        assert(p.skip(1) =~= Seq::<char>::empty());
        assert(escape_text(p) == escape_char(p[0]) + escape_text(p.skip(1)));
        assert(escape_char(c) + Seq::<char>::empty() =~= escape_char(c));
        assert(escape_text(s) + escape_char(c) =~= escape_char(c));
    } else {
        assert(s.push(c)[0] == s[0]);
        assert(s.push(c).skip(1) =~= s.skip(1).push(c));
        lemma_escape_text_snoc(s.skip(1), c);
        assert(escape_text(s.push(c)) == escape_char(s[0]) + (escape_text(s.skip(1))
            + escape_char(c)));
        assert(escape_char(s[0]) + (escape_text(s.skip(1)) + escape_char(c)) =~= (escape_char(s[0])
            + escape_text(s.skip(1))) + escape_char(c));
    }
}

/// Escaping distributes over concatenation.
pub proof fn lemma_escape_text_append(a: Seq<char>, b: Seq<char>)
    ensures
        escape_text(a + b) == escape_text(a) + escape_text(b),
    decreases a.len(),
{
    if a.len() == 0 {
        assert(a + b =~= b);
        assert(escape_text(a) + escape_text(b) =~= escape_text(b));
    } else {
        assert((a + b)[0] == a[0]);
        assert((a + b).skip(1) =~= a.skip(1) + b);
        lemma_escape_text_append(a.skip(1), b);
        assert(escape_char(a[0]) + (escape_text(a.skip(1)) + escape_text(b)) =~= (escape_char(a[0])
            + escape_text(a.skip(1))) + escape_text(b));
    }
}

/// On a string with no special characters, escaping is the identity (and so
/// is idempotent there).
pub proof fn lemma_escape_identity(s: Seq<char>)
    requires
        no_specials(s),
    ensures
        escape_text(s) == s,
    decreases s.len(),
{
    if s.len() == 0 {
        assert(escape_text(s) =~= s);
    } else {
        assert(!is_special(s[0]));
        lemma_escape_identity(s.skip(1));
        assert(seq![s[0]] + s.skip(1) =~= s);
    }
}

/// On a string with no special characters, escaping twice is the same as
/// escaping once: both are the string itself.
pub proof fn lemma_escape_idempotent(s: Seq<char>)
    requires
        no_specials(s),
    ensures
        escape_text(escape_text(s)) == escape_text(s),
{
    lemma_escape_identity(s);
}

/// Escaping a single character yields just that character's escape.
pub proof fn lemma_escape_single(c: char)
    ensures
        escape_text(seq![c]) == escape_char(c),
{
    assert(seq![c][0] == c);
    assert(seq![c].skip(1) =~= Seq::<char>::empty());
    assert(escape_text(Seq::<char>::empty()) == Seq::<char>::empty());
    assert(escape_text(seq![c]) == escape_char(c) + escape_text(Seq::<char>::empty()));
    assert(escape_char(c) + Seq::<char>::empty() =~= escape_char(c));
}

/// One round of unescaping undoes escaping exactly: escaping introduces no
/// entity that unescaping would read otherwise, and escapes nothing twice.
pub proof fn lemma_unescape_escape(s: Seq<char>)
    ensures
        unescape_once(escape_text(s)) == s,
    decreases s.len(),
{
    reveal_strlit("&amp;");
    reveal_strlit("&lt;");
    reveal_strlit("&gt;");
    reveal_strlit("&quot;");
    reveal_strlit("&apos;");
    if s.len() == 0 {
        assert(escape_text(s) =~= Seq::<char>::empty());
        assert(unescape_once(escape_text(s)) =~= s);
    } else {
        let c = s[0];
        let rest = s.skip(1);
        let e = escape_text(s);
        let er = escape_text(rest);
        lemma_unescape_escape(rest);
        assert(e == escape_char(c) + er);
        if e.len() >= 5 {
            assert(e.subrange(0, 5)[1] == e[1]);
            assert(e.subrange(0, 5)[2] == e[2]);
        }
        if e.len() >= 4 {
            assert(e.subrange(0, 4)[1] == e[1]);
        }
        if e.len() >= 6 {
            assert(e.subrange(0, 6)[1] == e[1]);
        }
        if c == '&' {
            assert(e.len() >= 5);
            assert(e.subrange(0, 5) =~= "&amp;"@);
            assert(e.skip(5) =~= er);
            assert(unescape_once(e) == seq!['&'] + unescape_once(e.skip(5)));
            assert(seq!['&'] + rest =~= s);
        } else if c == '<' {
            assert(e[1] == 'l');
            assert(e.len() >= 4);
            assert(e.subrange(0, 4) =~= "&lt;"@);
            assert(e.skip(4) =~= er);
            assert(unescape_once(e) == seq!['<'] + unescape_once(e.skip(4)));
            assert(seq!['<'] + rest =~= s);
        } else if c == '>' {
            assert(e[1] == 'g');
            assert(e.len() >= 4);
            assert(e.subrange(0, 4) =~= "&gt;"@);
            assert(e.skip(4) =~= er);
            assert(unescape_once(e) == seq!['>'] + unescape_once(e.skip(4)));
            assert(seq!['>'] + rest =~= s);
        } else if c == '"' {
            assert(e[1] == 'q');
            assert(e.len() >= 6);
            assert(e.subrange(0, 6) =~= "&quot;"@);
            assert(e.skip(6) =~= er);
            assert(unescape_once(e) == seq!['"'] + unescape_once(e.skip(6)));
            assert(seq!['"'] + rest =~= s);
        } else if c == '\'' {
            assert(e[1] == 'a');
            assert(e[2] == 'p');
            assert(e.len() >= 6);
            assert(e.subrange(0, 6) =~= "&apos;"@);
            assert(e.skip(6) =~= er);
            assert(unescape_once(e) == seq!['\''] + unescape_once(e.skip(6)));
            assert(seq!['\''] + rest =~= s);
        } else {
            assert(e[0] == c);
            assert(c != '&');
            assert(e.len() >= 5 ==> e.subrange(0, 5)[0] == e[0]);
            assert(e.len() >= 4 ==> e.subrange(0, 4)[0] == e[0]);
            assert(e.len() >= 6 ==> e.subrange(0, 6)[0] == e[0]);
            assert(e.skip(1) =~= er);
            assert(unescape_once(e) == seq![e[0]] + unescape_once(e.skip(1)));
            assert(seq![c] + rest =~= s);
        }
    }
}

} // verus!
