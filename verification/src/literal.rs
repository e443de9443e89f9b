//! Literals in C.
use crate::ast::{Literal, LiteralV};
use crate::diagnostics::ExprErrorV;
use crate::escape::{unescaped, unescaped_from};
use crate::lexer::{digits_end, digits_value, is_digit, lex_at, lex_from, quote_end, space_end, tokens_of, LexV};
use crate::text;
use crate::token::TokV;
use vstd::prelude::*;

verus! {

/// A character inside a C character literal.
pub open spec fn char_escape(c: char) -> Seq<char> {
    if c == '\n' { "\\n"@ }
    else if c == '\r' { "\\r"@ }
    else if c == '\t' { "\\t"@ }
    else if c == '\\' { "\\\\"@ }
    else if c == '\'' { "\\'"@ }
    else if c == '"' { "\\\""@ }
    else { seq![c] }
}

/// A character inside a C string literal.
pub open spec fn string_escape(c: char) -> Seq<char> {
    if c == '\\' { "\\\\"@ }
    else if c == '"' { "\\\""@ }
    else if c == '\n' { "\\n"@ }
    else if c == '\t' { "\\t"@ }
    else { seq![c] }
}

/// A text inside a C string literal.
pub open spec fn string_escapes(s: Seq<char>) -> Seq<char>
    decreases s.len(),
{
    if s.len() == 0 {
        Seq::empty()
    } else {
        string_escapes(s.drop_last()) + string_escape(s.last())
    }
}

/// A literal in C. A whole floating-point number gets a fraction, and one of C's type `float` the
/// suffix that says so.
pub open spec fn c_literal(l: LiteralV, is_c_float: bool) -> Seq<char> {
    match l {
        LiteralV::Int(i) => text::signed_text(i as int),
        LiteralV::Float(f) => (if f.contains('.') { f } else { f + ".0"@ }) + (if is_c_float { "f"@ } else { ""@ }),
        LiteralV::Char(c) => "'"@ + char_escape(c) + "'"@,
        LiteralV::String(s) => "\""@ + string_escapes(s) + "\""@,
        LiteralV::Bool(b) => if b { "true"@ } else { "false"@ },
        LiteralV::Null => "NULL"@,
    }
}

/// An integer that is not negative, written in C, is read back as that integer.
pub proof fn law_integer_reads_back(i: i64)
    requires
        i >= 0,
    ensures
        tokens_of(c_literal(LiteralV::Int(i), false)) == Ok::<Seq<TokV>, ExprErrorV>(seq![TokV::IntLit(i)]),
{
    let cs = c_literal(LiteralV::Int(i), false);
    let n = i as nat;
    assert(cs == text::decimal_text(n));
    lemma_decimal_digits(n);
    lemma_digits_to_end(cs, 0);
    assert(space_end(cs, 0) == 0);
    assert(cs.subrange(0, cs.len() as int) =~= cs);
    assert(lex_at(cs, 0) == LexV::Token(TokV::IntLit(i), 0, cs.len() as int));
    let one = Seq::<TokV>::empty().push(TokV::IntLit(i));
    assert(lex_at(cs, cs.len() as int) == LexV::End);
    assert(lex_from(cs, cs.len() as int, one) == Ok::<Seq<TokV>, ExprErrorV>(one));
    assert(one =~= seq![TokV::IntLit(i)]);
}

/// A string, written in C, is read back as that string.
pub proof fn law_string_reads_back(s: Seq<char>)
    ensures
        tokens_of(c_literal(LiteralV::String(s), false)) == Ok::<Seq<TokV>, ExprErrorV>(seq![TokV::StringLit(s)]),
{
    let body = string_escapes(s);
    let cs = c_literal(LiteralV::String(s), false);
    reveal_strlit("\"");
    assert(cs =~= seq!['"'] + body + seq!['"']);
    lemma_string_ends(seq!['"'], s);
    assert(space_end(cs, 0) == 0);
    assert(cs.subrange(1, (1 + body.len()) as int) =~= body);
    lemma_string_unescapes(Seq::empty(), s, Seq::empty());
    assert(Seq::<char>::empty() + body =~= body);
    assert(Seq::<char>::empty() + s =~= s);
    assert(lex_at(cs, 0) == LexV::Token(TokV::StringLit(s), 0, cs.len() as int));
    let one = Seq::<TokV>::empty().push(TokV::StringLit(s));
    assert(lex_at(cs, cs.len() as int) == LexV::End);
    assert(lex_from(cs, cs.len() as int, one) == Ok::<Seq<TokV>, ExprErrorV>(one));
    assert(one =~= seq![TokV::StringLit(s)]);
}

/// A character, written in C, is read back as that character.
pub proof fn law_character_reads_back(c: char)
    ensures
        tokens_of(c_literal(LiteralV::Char(c), false)) == Ok::<Seq<TokV>, ExprErrorV>(seq![TokV::CharLit(c)]),
{
    let body = char_escape(c);
    let cs = c_literal(LiteralV::Char(c), false);
    reveal_strlit("'");
    reveal_strlit("\\n");
    reveal_strlit("\\r");
    reveal_strlit("\\t");
    reveal_strlit("\\\\");
    reveal_strlit("\\'");
    reveal_strlit("\\\"");
    assert(cs =~= seq!['\''] + body + seq!['\'']);
    assert(space_end(cs, 0) == 0);
    let end = 1 + body.len();
    assert(quote_end(cs, end as int, '\'') == Some(end as int));
    assert(cs.subrange(1, end as int) =~= body);
    assert(cs[1] == body[0]);
    if body.len() == 1 {
        assert(quote_end(cs, 1, '\'') == Some(end as int));
    } else {
        assert(cs[2] == body[1]);
        assert(quote_end(cs, 3, '\'') == Some(end as int));
    }
    let one_char = Seq::<char>::empty().push(c);
    assert(unescaped_from(body, body.len() as int, one_char) == Some(one_char));
    assert(unescaped(body) == Some(one_char));
    assert(lex_at(cs, 0) == LexV::Token(TokV::CharLit(c), 0, cs.len() as int));
    let one = Seq::<TokV>::empty().push(TokV::CharLit(c));
    assert(lex_at(cs, cs.len() as int) == LexV::End);
    assert(lex_from(cs, cs.len() as int, one) == Ok::<Seq<TokV>, ExprErrorV>(one));
    assert(one =~= seq![TokV::CharLit(c)]);
}

proof fn lemma_decimal_digits(n: nat)
    ensures
        text::decimal_text(n).len() > 0,
        forall|i: int| 0 <= i < text::decimal_text(n).len() ==> is_digit(#[trigger] text::decimal_text(n)[i]),
        digits_value(text::decimal_text(n)) == n,
    decreases n,
{
    let s = text::decimal_text(n);
    if n < 10 {
        assert(s.drop_last() =~= Seq::<char>::empty());
        assert(digits_value(s.drop_last()) == 0);
    } else {
        lemma_decimal_digits(n / 10);
        assert(s.drop_last() =~= text::decimal_text(n / 10));
    }
}

proof fn lemma_digits_to_end(cs: Seq<char>, i: int)
    requires
        0 <= i <= cs.len(),
        forall|j: int| i <= j < cs.len() ==> is_digit(#[trigger] cs[j]),
    ensures
        digits_end(cs, i) == cs.len(),
    decreases cs.len() - i,
{
    if i < cs.len() {
        lemma_digits_to_end(cs, i + 1);
    }
}

proof fn lemma_escape_strings()
    ensures
        "\\n"@ =~= seq!['\\', 'n'],
        "\\t"@ =~= seq!['\\', 't'],
        "\\\\"@ =~= seq!['\\', '\\'],
        "\\\""@ =~= seq!['\\', '"'],
{
    reveal_strlit("\\n");
    reveal_strlit("\\t");
    reveal_strlit("\\\\");
    reveal_strlit("\\\"");
}

proof fn lemma_escapes_from_front(s: Seq<char>)
    requires
        s.len() > 0,
    ensures
        string_escapes(s) == string_escape(s[0]) + string_escapes(s.skip(1)),
    decreases s.len(),
{
    if s.len() == 1 {
        assert(s.drop_last() =~= Seq::<char>::empty());
        assert(s.skip(1) =~= Seq::<char>::empty());
        assert(string_escapes(s) =~= string_escape(s[0]) + string_escapes(s.skip(1)));
    } else {
        lemma_escapes_from_front(s.drop_last());
        assert(s.drop_last().skip(1) =~= s.skip(1).drop_last());
        assert(s.skip(1).last() == s.last());
        assert(string_escapes(s) =~= string_escape(s[0]) + string_escapes(s.skip(1)));
    }
}

proof fn lemma_string_ends(before: Seq<char>, s: Seq<char>)
    ensures
        quote_end(before + string_escapes(s) + seq!['"'], before.len() as int, '"') == Some(
            (before.len() + string_escapes(s).len()) as int,
        ),
    decreases s.len(),
{
    let cs = before + string_escapes(s) + seq!['"'];
    if s.len() == 0 {
        assert(cs[before.len() as int] == '"');
    } else {
        lemma_escapes_from_front(s);
        lemma_escape_strings();
        let head = string_escape(s[0]);
        lemma_string_ends(before + head, s.skip(1));
        assert((before + head) + string_escapes(s.skip(1)) + seq!['"'] =~= cs);
        assert(cs[before.len() as int] == head[0]);
    }
}

proof fn lemma_string_unescapes(before: Seq<char>, s: Seq<char>, acc: Seq<char>)
    ensures
        unescaped_from(before + string_escapes(s), before.len() as int, acc) == Some(acc + s),
    decreases s.len(),
{
    let cs = before + string_escapes(s);
    if s.len() == 0 {
        assert(acc + s =~= acc);
    } else {
        lemma_escapes_from_front(s);
        lemma_escape_strings();
        let head = string_escape(s[0]);
        lemma_string_unescapes(before + head, s.skip(1), acc.push(s[0]));
        assert((before + head) + string_escapes(s.skip(1)) =~= cs);
        assert(acc.push(s[0]) + s.skip(1) =~= acc + s);
        assert(cs[before.len() as int] == head[0]);
        if head.len() == 2 {
            assert(cs[before.len() as int + 1] == head[1]);
        }
    }
}

fn one_char(c: char) -> (r: String)
    ensures
        r@ == seq![c],
{
    let mut s = String::new();
    s.push(c);
    proof {
        assert(s@ =~= seq![c]);
    }
    s
}

fn has_point(s: &str) -> (r: bool)
    ensures
        r == s@.contains('.'),
{
    let cs = text::chars_of(s);
    let mut i: usize = 0;
    while i < cs.len()
        invariant
            i <= cs@.len(),
            cs@ == s@,
            forall|j: int| 0 <= j < i ==> cs@[j] != '.',
        decreases cs@.len() - i,
    {
        if cs[i] == '.' {
            return true;
        }
        i = i + 1;
    }
    false
}

/// Escapes a text for a C string literal.
pub fn escape_string(s: &str) -> (r: String)
    ensures
        r@ == string_escapes(s@),
{
    let cs = text::chars_of(s);
    let mut out = String::new();
    let mut i: usize = 0;
    proof {
        assert(out@ =~= string_escapes(cs@.take(0)));
    }
    while i < cs.len()
        invariant
            i <= cs@.len(),
            cs@ == s@,
            out@ == string_escapes(cs@.take(i as int)),
        decreases cs@.len() - i,
    {
        let c = cs[i];
        let e = if c == '\\' { "\\\\".to_owned() }
            else if c == '"' { "\\\"".to_owned() }
            else if c == '\n' { "\\n".to_owned() }
            else if c == '\t' { "\\t".to_owned() }
            else { one_char(c) };
        proof {
            assert(cs@.take(i + 1).drop_last() =~= cs@.take(i as int));
        }
        out.push_str(e.as_str());
        i = i + 1;
    }
    proof {
        assert(cs@.take(cs@.len() as int) =~= cs@);
    }
    out
}

impl Literal {
    /// Escapes a character for a C character literal.
    pub fn escape_char(c: char) -> (r: String)
        ensures
            r@ == char_escape(c),
    {
        if c == '\n' { "\\n".to_owned() }
        else if c == '\r' { "\\r".to_owned() }
        else if c == '\t' { "\\t".to_owned() }
        else if c == '\\' { "\\\\".to_owned() }
        else if c == '\'' { "\\'".to_owned() }
        else if c == '"' { "\\\"".to_owned() }
        else { one_char(c) }
    }

    /// This literal in C; floating-point numbers have C's type `float`.
    pub fn to_c(&self) -> (r: String)
        ensures
            r@ == c_literal(self@, true),
    {
        self.to_c_with_float(true)
    }

    /// This literal in C, with the type of floating-point numbers given.
    pub fn to_c_with_float(&self, is_c_float: bool) -> (r: String)
        ensures
            r@ == c_literal(self@, is_c_float),
    {
        match self {
            Literal::Int(i) => text::signed_decimal(*i),
            Literal::Float(f) => {
                let suffix = if is_c_float { "f" } else { "" };
                if has_point(f.as_str()) {
                    f.clone().concat(suffix)
                } else {
                    f.clone().concat(".0").concat(suffix)
                }
            },
            Literal::Char(c) => "'".to_owned().concat(Literal::escape_char(*c).as_str()).concat("'"),
            Literal::String(s) => "\"".to_owned().concat(escape_string(s.as_str()).as_str()).concat("\""),
            Literal::Bool(b) => if *b { "true".to_owned() } else { "false".to_owned() },
            Literal::Null => "NULL".to_owned(),
        }
    }
}

} // verus!
