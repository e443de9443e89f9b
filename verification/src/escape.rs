//! Escape sequences in string and character literals.
use crate::text;
use vstd::prelude::*;

verus! {

/// The character that a backslash followed by `c` stands for.
pub open spec fn escaped_char(c: char) -> char {
    if c == 'n' { '\n' } else if c == 'r' { '\r' } else if c == 't' { '\t' } else { c }
}

/// The text behind position `i`, with its escape sequences replaced, appended to `acc`; nothing
/// where the text ends in a lone backslash.
pub open spec fn unescaped_from(s: Seq<char>, i: int, acc: Seq<char>) -> Option<Seq<char>>
    decreases s.len() - i,
{
    if i < 0 || i >= s.len() {
        Some(acc)
    } else if s[i] != '\\' {
        unescaped_from(s, i + 1, acc.push(s[i]))
    } else if i + 1 >= s.len() {
        None
    } else {
        unescaped_from(s, i + 2, acc.push(escaped_char(s[i + 1])))
    }
}

/// A text with its escape sequences replaced.
pub open spec fn unescaped(s: Seq<char>) -> Option<Seq<char>> {
    unescaped_from(s, 0, Seq::empty())
}

/// The contents of an optional string.
pub open spec fn opt_text(s: Option<String>) -> Option<Seq<char>> {
    match s {
        Some(x) => Some(x@),
        None => None,
    }
}

/// A text without a backslash stands for itself.
pub proof fn law_plain_text_unescapes_to_itself(s: Seq<char>)
    requires
        forall|i: int| 0 <= i < s.len() ==> s[i] != '\\',
    ensures
        unescaped(s) == Some(s),
{
    lemma_plain_from(s, 0);
    assert(s.take(0) =~= Seq::<char>::empty());
}

proof fn lemma_plain_from(s: Seq<char>, i: int)
    requires
        0 <= i <= s.len(),
        forall|i: int| 0 <= i < s.len() ==> s[i] != '\\',
    ensures
        unescaped_from(s, i, s.take(i)) == Some(s),
    decreases s.len() - i,
{
    if i < s.len() {
        lemma_plain_from(s, i + 1);
        assert(s.take(i + 1) =~= s.take(i).push(s[i]));
    } else {
        assert(s.take(i) =~= s);
    }
}

/// Replaces the escape sequences of a text; `None` where it ends in a lone backslash.
pub fn unescape(s: &str) -> (r: Option<String>)
    ensures
        opt_text(r) == unescaped(s@),
{
    let cs = text::chars_of(s);
    proof {
        assert(cs@.subrange(0, cs@.len() as int) =~= s@);
    }
    unescape_range(&cs, 0, cs.len())
}

/// Replaces the escape sequences of the characters from `from` up to `to`.
pub fn unescape_range(cs: &Vec<char>, from: usize, to: usize) -> (r: Option<String>)
    requires
        from <= to <= cs@.len(),
    ensures
        opt_text(r) == unescaped(cs@.subrange(from as int, to as int)),
{
    let ghost s = cs@.subrange(from as int, to as int);
    let mut out = String::new();
    let mut i: usize = from;
    while i < to
        invariant
            from <= i <= to <= cs@.len(),
            s == cs@.subrange(from as int, to as int),
            unescaped(s) == unescaped_from(s, i - from, out@),
        decreases to - i,
    {
        let c = cs[i];
        assert(s[i - from] == c);
        if c == '\\' {
            if i + 1 >= to {
                return None;
            }
            let d = cs[i + 1];
            assert(s[i + 1 - from] == d);
            let e = if d == 'n' { '\n' } else if d == 'r' { '\r' } else if d == 't' { '\t' } else { d };
            out.push(e);
            i = i + 2;
        } else {
            out.push(c);
            i = i + 1;
        }
    }
    Some(out)
}

} // verus!
