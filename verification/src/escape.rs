//! Escaping of the redisplayed query text.
//!
//! The renderer places the query into quoted markup as it is, so a double
//! quote in it is replaced by its entity here; nothing else is touched.

use vstd::prelude::*;
use vstd::string::*;

verus! {

/// What stands for one character in the escaped text.
pub open spec fn escaped_char(c: char) -> Seq<char> {
    if c == '"' {
        "&quot;"@
    } else {
        seq![c]
    }
}

/// The text `s` with every double quote replaced by `&quot;`.
pub open spec fn escaped(s: Seq<char>) -> Seq<char>
    decreases s.len(),
{
    if s.len() == 0 {
        Seq::empty()
    } else {
        escaped(s.drop_last()) + escaped_char(s.last())
    }
}

/// The number of double quotes in `s`.
pub open spec fn quote_count(s: Seq<char>) -> nat
    decreases s.len(),
{
    if s.len() == 0 {
        0
    } else if s.last() == '"' {
        quote_count(s.drop_last()) + 1
    } else {
        quote_count(s.drop_last())
    }
}

/// Replaces every double quote in `s` by `&quot;`.
pub fn escape_quotes(s: &str) -> (out: String)
    ensures
        out@ == escaped(s@),
{
    let n: usize = s.unicode_len();
    let mut out = String::new();
    let mut i: usize = 0;
    while i < n
        invariant
            i <= n,
            n == s@.len(),
            out@ == escaped(s@.subrange(0, i as int)),
        decreases n - i,
    {
        let c = s.get_char(i);
        if c == '"' {
            out.append("&quot;");
        } else {
            out.append(s.substring_char(i, i + 1));
        }
        proof {
            let grown = s@.subrange(0, i + 1);
            assert(grown.drop_last() =~= s@.subrange(0, i as int));
            assert(grown.last() == c);
            assert(s@.subrange(i as int, i + 1) =~= seq![c]);
        }
        i += 1;
    }
    proof {
        assert(s@.subrange(0, n as int) =~= s@);
    }
    out
}

/// Escaping distributes over concatenation: each character is replaced on
/// its own, whatever stands around it.
pub proof fn lemma_escaped_concat(a: Seq<char>, b: Seq<char>)
    ensures
        escaped(a + b) == escaped(a) + escaped(b),
    decreases b.len(),
{
    if b.len() == 0 {
        assert(a + b =~= a);
        assert(escaped(a) + escaped(b) =~= escaped(a));
    } else {
        lemma_escaped_concat(a, b.drop_last());
        assert((a + b).drop_last() =~= a + b.drop_last());
        assert((a + b).last() == b.last());
        assert(escaped(a + b) =~= escaped(a) + escaped(b));
    }
}

/// Escaped text holds no double quote.
pub proof fn lemma_escaped_has_no_quote(s: Seq<char>)
    ensures
        forall|i: int| 0 <= i < escaped(s).len() ==> escaped(s)[i] != '"',
    decreases s.len(),
{
    if s.len() > 0 {
        lemma_escaped_has_no_quote(s.drop_last());
        lemma_entity_has_no_quote();
        let head = escaped(s.drop_last());
        let tail = escaped_char(s.last());
        assert forall|i: int| 0 <= i < escaped(s).len() implies escaped(s)[i] != '"' by {
            if i < head.len() {
                assert(escaped(s)[i] == head[i]);
            } else {
                assert(escaped(s)[i] == tail[i - head.len()]);
            }
        }
    }
}

/// The entity that stands for a double quote holds none itself.
pub proof fn lemma_entity_has_no_quote()
    ensures
        "&quot;"@.len() == 6,
        forall|k: int| 0 <= k < 6 ==> "&quot;"@[k] != '"',
{
    reveal_strlit("&quot;");
    let e = "&quot;"@;
    assert(e[0] == '&' && e[1] == 'q' && e[2] == 'u' && e[3] == 'o' && e[4] == 't' && e[5] == ';');
}

/// Text without a double quote is left as it is.
pub proof fn lemma_escaped_without_quote(s: Seq<char>)
    requires
        forall|i: int| 0 <= i < s.len() ==> s[i] != '"',
    ensures
        escaped(s) == s,
    decreases s.len(),
{
    if s.len() > 0 {
        lemma_escaped_without_quote(s.drop_last());
        assert(escaped(s) =~= s);
    }
}

/// Each double quote grows the text by the five characters that its entity
/// has more than it.
pub proof fn lemma_escaped_len(s: Seq<char>)
    ensures
        escaped(s).len() == s.len() + 5 * quote_count(s),
    decreases s.len(),
{
    reveal_strlit("&quot;");
    if s.len() > 0 {
        lemma_escaped_len(s.drop_last());
    }
}

/// A double quote between two texts comes out as `&quot;` between their
/// escaped forms.
pub proof fn lemma_escaped_around_quote(a: Seq<char>, b: Seq<char>)
    ensures
        escaped(a + seq!['"'] + b) == escaped(a) + "&quot;"@ + escaped(b),
{
    lemma_escaped_concat(a + seq!['"'], b);
    lemma_escaped_concat(a, seq!['"']);
    let q = seq!['"'];
    assert(q.drop_last() =~= Seq::<char>::empty());
    assert(escaped(q.drop_last()) =~= Seq::<char>::empty());
    assert(escaped(q) =~= "&quot;"@);
}

} // verus!
