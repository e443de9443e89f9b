//! The lexer of Kit expressions.
use crate::diagnostics::{ExprErrorV, ExprParseError};
use crate::escape::{unescape_range, unescaped};
use crate::text;
use crate::token::{toks_v, word_tok, word_token, SpannedTok, Tok, TokV};
use vstd::prelude::*;

verus! {

/// The character at a position, or NUL behind the end.
pub open spec fn char_at(cs: Seq<char>, i: int) -> char {
    if 0 <= i < cs.len() {
        cs[i]
    } else {
        '\0'
    }
}

/// Whether a character is white space between tokens.
pub open spec fn is_space(c: char) -> bool {
    c == ' ' || c == '\t' || c == '\n' || c == '\r'
}

/// Whether a character is a decimal digit.
pub open spec fn is_digit(c: char) -> bool {
    '0' <= c && c <= '9'
}

/// Whether a character can begin a word.
pub open spec fn is_word_start(c: char) -> bool {
    ('a' <= c && c <= 'z') || ('A' <= c && c <= 'Z') || c == '_'
}

/// The end of the white space that begins at `i`.
pub open spec fn space_end(cs: Seq<char>, i: int) -> int
    decreases cs.len() - i,
{
    if 0 <= i < cs.len() && is_space(cs[i]) {
        space_end(cs, i + 1)
    } else {
        i
    }
}

/// The end of the digits that begin at `i`.
pub open spec fn digits_end(cs: Seq<char>, i: int) -> int
    decreases cs.len() - i,
{
    if 0 <= i < cs.len() && is_digit(cs[i]) {
        digits_end(cs, i + 1)
    } else {
        i
    }
}

/// The end of the letters, digits and underscores that begin at `i`.
pub open spec fn word_end(cs: Seq<char>, i: int) -> int
    decreases cs.len() - i,
{
    if 0 <= i < cs.len() && (is_word_start(cs[i]) || is_digit(cs[i])) {
        word_end(cs, i + 1)
    } else {
        i
    }
}

/// The position of the first `quote` at or behind `i` that no backslash escapes.
pub open spec fn quote_end(cs: Seq<char>, i: int, quote: char) -> Option<int>
    decreases cs.len() - i,
{
    if i < 0 || i >= cs.len() {
        None
    } else if cs[i] == quote {
        Some(i)
    } else if cs[i] == '\\' {
        if i + 1 >= cs.len() {
            None
        } else {
            quote_end(cs, i + 2, quote)
        }
    } else {
        quote_end(cs, i + 1, quote)
    }
}

/// The value of a decimal digit.
pub open spec fn digit_value(c: char) -> int {
    c as int - '0' as int
}

/// The value of a run of digits.
pub open spec fn digits_value(s: Seq<char>) -> int
    decreases s.len(),
{
    if s.len() == 0 {
        0
    } else {
        digits_value(s.drop_last()) * 10 + digit_value(s.last())
    }
}

/// The digits without leading zeros, but for a last one.
pub open spec fn without_leading_zeros(s: Seq<char>) -> Seq<char>
    decreases s.len(),
{
    if s.len() > 1 && s[0] == '0' {
        without_leading_zeros(s.skip(1))
    } else {
        s
    }
}

/// The digits without trailing zeros.
pub open spec fn without_trailing_zeros(s: Seq<char>) -> Seq<char>
    decreases s.len(),
{
    if s.len() > 0 && s.last() == '0' {
        without_trailing_zeros(s.drop_last())
    } else {
        s
    }
}

/// The shortest decimal text of the number `whole.fraction`.
pub open spec fn decimal_fraction(whole: Seq<char>, fraction: Seq<char>) -> Seq<char> {
    let f = without_trailing_zeros(fraction);
    if f.len() == 0 {
        without_leading_zeros(whole)
    } else {
        without_leading_zeros(whole) + "."@ + f
    }
}

/// The longest operator or bracket that begins at `i`, and its length.
pub open spec fn symbol_at(cs: Seq<char>, i: int) -> Option<(TokV, int)> {
    let a = char_at(cs, i);
    let b = char_at(cs, i + 1);
    let c = char_at(cs, i + 2);
    if a == '.' {
        if b == '.' && c == '.' { Some((TokV::Ellipsis, 3)) } else { Some((TokV::Dot, 1)) }
    } else if a == '<' {
        if b == '<' {
            if c == '=' { Some((TokV::ShlEq, 3)) } else { Some((TokV::Shl, 2)) }
        } else if b == '=' { Some((TokV::LtEq, 2)) } else { Some((TokV::Lt, 1)) }
    } else if a == '>' {
        if b == '>' {
            if c == '=' { Some((TokV::ShrEq, 3)) } else { Some((TokV::Shr, 2)) }
        } else if b == '=' { Some((TokV::GtEq, 2)) } else { Some((TokV::Gt, 1)) }
    } else if a == '+' {
        if b == '+' { Some((TokV::PlusPlus, 2)) } else if b == '=' { Some((TokV::PlusEq, 2)) } else { Some((TokV::Plus, 1)) }
    } else if a == '-' {
        if b == '-' { Some((TokV::MinusMinus, 2)) } else if b == '=' { Some((TokV::MinusEq, 2)) } else { Some((TokV::Minus, 1)) }
    } else if a == '&' {
        if b == '&' { Some((TokV::AndAnd, 2)) } else if b == '=' { Some((TokV::AmpEq, 2)) } else { Some((TokV::Amp, 1)) }
    } else if a == '|' {
        if b == '|' { Some((TokV::OrOr, 2)) } else if b == '=' { Some((TokV::PipeEq, 2)) } else { Some((TokV::Pipe, 1)) }
    } else if a == '*' {
        if b == '=' { Some((TokV::StarEq, 2)) } else { Some((TokV::Star, 1)) }
    } else if a == '/' {
        if b == '=' { Some((TokV::SlashEq, 2)) } else { Some((TokV::Slash, 1)) }
    } else if a == '%' {
        if b == '=' { Some((TokV::PercentEq, 2)) } else { Some((TokV::Percent, 1)) }
    } else if a == '^' {
        if b == '=' { Some((TokV::CaretEq, 2)) } else { Some((TokV::Caret, 1)) }
    } else if a == '=' {
        if b == '=' { Some((TokV::EqEq, 2)) } else { Some((TokV::Assign, 1)) }
    } else if a == '!' {
        if b == '=' { Some((TokV::NotEq, 2)) } else { Some((TokV::Bang, 1)) }
    } else if a == '(' { Some((TokV::LParen, 1))
    } else if a == ')' { Some((TokV::RParen, 1))
    } else if a == '[' { Some((TokV::LBracket, 1))
    } else if a == ']' { Some((TokV::RBracket, 1))
    } else if a == '{' { Some((TokV::LBrace, 1))
    } else if a == '}' { Some((TokV::RBrace, 1))
    } else if a == ',' { Some((TokV::Comma, 1))
    } else if a == ';' { Some((TokV::Semi, 1))
    } else if a == ':' { Some((TokV::Colon, 1))
    } else if a == '~' { Some((TokV::Tilde, 1))
    } else { None }
}

/// What the lexer finds at a position: the end of the text, a token with its range, or an error.
pub enum LexV {
    End,
    Token(TokV, int, int),
    Bad(ExprErrorV),
}

/// The number `whole.fraction` that begins at `i`, where one does.
pub open spec fn fraction_at(cs: Seq<char>, i: int) -> Option<Seq<char>> {
    let e = digits_end(cs, i);
    if is_digit(char_at(cs, i)) && char_at(cs, e) == '.' && is_digit(char_at(cs, e + 1)) {
        Some(decimal_fraction(cs.subrange(i, e), cs.subrange(e + 1, digits_end(cs, e + 1))))
    } else {
        None
    }
}

/// The numbers `whole.fraction` that begin at or behind `i`, appended to `acc`.
pub open spec fn fractions_from(cs: Seq<char>, i: int, acc: Seq<Seq<char>>) -> Seq<Seq<char>>
    decreases cs.len() - i,
{
    if i < 0 || i >= cs.len() {
        acc
    } else {
        match fraction_at(cs, i) {
            Some(f) => fractions_from(cs, i + 1, acc.push(f)),
            None => fractions_from(cs, i + 1, acc),
        }
    }
}

/// Every number with a fraction that is read from a text is among those that begin in it.
pub proof fn law_fractions_are_found(cs: Seq<char>, i: int)
    requires
        0 <= i,
    ensures
        lex_at(cs, i) matches LexV::Token(TokV::FloatLit(f), _, _) ==> fractions_from(cs, 0, Seq::empty()).contains(f),
{
    if let LexV::Token(TokV::FloatLit(f), _, _) = lex_at(cs, i) {
        let p = space_end(cs, i);
        lemma_space_end(cs, i);
        if is_digit(char_at(cs, p)) {
            assert(fraction_at(cs, p) == Some(f));
            lemma_fraction_is_listed(cs, 0, p, Seq::empty());
        }
    }
}

proof fn lemma_space_end(cs: Seq<char>, i: int)
    ensures
        i <= space_end(cs, i),
    decreases cs.len() - i,
{
    if 0 <= i < cs.len() {
        lemma_space_end(cs, i + 1);
    }
}

proof fn lemma_fractions_keep(cs: Seq<char>, i: int, acc: Seq<Seq<char>>, f: Seq<char>)
    requires
        acc.contains(f),
    ensures
        fractions_from(cs, i, acc).contains(f),
    decreases cs.len() - i,
{
    if 0 <= i < cs.len() {
        if let Some(g) = fraction_at(cs, i) {
            let k = choose|k: int| 0 <= k < acc.len() && acc[k] == f;
            assert(acc.push(g)[k] == f);
            lemma_fractions_keep(cs, i + 1, acc.push(g), f);
        } else {
            lemma_fractions_keep(cs, i + 1, acc, f);
        }
    }
}

proof fn lemma_fraction_is_listed(cs: Seq<char>, i: int, p: int, acc: Seq<Seq<char>>)
    requires
        0 <= i <= p < cs.len(),
    ensures
        fraction_at(cs, p) matches Some(f) ==> fractions_from(cs, i, acc).contains(f),
    decreases p - i,
{
    if let Some(f) = fraction_at(cs, p) {
        if i == p {
            assert(acc.push(f)[acc.len() as int] == f);
            lemma_fractions_keep(cs, i + 1, acc.push(f), f);
        } else {
            let more = match fraction_at(cs, i) {
                Some(g) => acc.push(g),
                None => acc,
            };
            lemma_fraction_is_listed(cs, i + 1, p, more);
        }
    }
}

/// The first token at or behind `i`.
pub open spec fn lex_at(cs: Seq<char>, i: int) -> LexV {
    let p = space_end(cs, i);
    let c = char_at(cs, p);
    if p >= cs.len() {
        LexV::End
    } else if is_digit(c) {
        let e = digits_end(cs, p);
        if char_at(cs, e) == '.' && is_digit(char_at(cs, e + 1)) {
            let f = digits_end(cs, e + 1);
            LexV::Token(TokV::FloatLit(decimal_fraction(cs.subrange(p, e), cs.subrange(e + 1, f))), p, f)
        } else if digits_value(cs.subrange(p, e)) > i64::MAX {
            LexV::Bad(
                ExprErrorV::Custom("integer literal `"@ + cs.subrange(p, e) + "` is out of range"@),
            )
        } else {
            LexV::Token(TokV::IntLit(digits_value(cs.subrange(p, e)) as i64), p, e)
        }
    } else if is_word_start(c) {
        LexV::Token(word_token(cs.subrange(p, word_end(cs, p))), p, word_end(cs, p))
    } else if c == '"' {
        match quote_end(cs, p + 1, '"') {
            None => LexV::Bad(ExprErrorV::Custom("unterminated string literal"@)),
            Some(q) => match unescaped(cs.subrange(p + 1, q)) {
                Some(s) => LexV::Token(TokV::StringLit(s), p, q + 1),
                None => LexV::Bad(ExprErrorV::Custom("invalid string literal"@)),
            },
        }
    } else if c == '\'' {
        match quote_end(cs, p + 1, '\'') {
            None => LexV::Bad(ExprErrorV::Custom("unterminated character literal"@)),
            Some(q) => match unescaped(cs.subrange(p + 1, q)) {
                Some(s) => if s.len() == 1 {
                    LexV::Token(TokV::CharLit(s[0]), p, q + 1)
                } else {
                    LexV::Bad(ExprErrorV::Custom("invalid character literal"@))
                },
                None => LexV::Bad(ExprErrorV::Custom("invalid character literal"@)),
            },
        }
    } else {
        match symbol_at(cs, p) {
            Some((t, n)) => LexV::Token(t, p, p + n),
            None => LexV::Bad(ExprErrorV::Custom("unexpected character `"@ + seq![c] + "`"@)),
        }
    }
}

/// The tokens at and behind `i`, appended to `acc`; the first error where there is one.
pub open spec fn lex_from(cs: Seq<char>, i: int, acc: Seq<TokV>) -> Result<Seq<TokV>, ExprErrorV>
    decreases cs.len() - i,
{
    match lex_at(cs, i) {
        LexV::End => Ok(acc),
        LexV::Bad(e) => Err(e),
        LexV::Token(t, _, e) => if i < e <= cs.len() {
            lex_from(cs, e, acc.push(t))
        } else {
            Ok(acc)
        },
    }
}

/// The tokens of a text.
pub open spec fn tokens_of(s: Seq<char>) -> Result<Seq<TokV>, ExprErrorV> {
    lex_from(s, 0, Seq::empty())
}

/// Where the tokens from position `i` on begin and end, in characters, appended to `acc`.
pub open spec fn ranges_from(cs: Seq<char>, i: int, acc: Seq<(int, int)>) -> Seq<(int, int)>
    decreases cs.len() - i,
{
    match lex_at(cs, i) {
        LexV::Token(_, p, e) => if i < e <= cs.len() {
            ranges_from(cs, e, acc.push((p, e)))
        } else {
            acc
        },
        _ => acc,
    }
}

/// Where tokens begin and end.
pub open spec fn ranges_v(ts: Seq<SpannedTok>) -> Seq<(int, int)> {
    ts.map_values(|t: SpannedTok| (t.start as int, t.end as int))
}

fn peek(cs: &Vec<char>, i: usize) -> (r: char)
    ensures
        r == char_at(cs@, i as int),
{
    if i < cs.len() {
        cs[i]
    } else {
        '\0'
    }
}

fn digit(c: char) -> (r: bool)
    ensures
        r == is_digit(c),
{
    '0' <= c && c <= '9'
}

pub(crate) fn word_start(c: char) -> (r: bool)
    ensures
        r == is_word_start(c),
{
    ('a' <= c && c <= 'z') || ('A' <= c && c <= 'Z') || c == '_'
}

fn skip_space(cs: &Vec<char>, from: usize) -> (r: usize)
    requires
        from <= cs@.len(),
    ensures
        r == space_end(cs@, from as int),
        from <= r <= cs@.len(),
{
    let mut i: usize = from;
    while i < cs.len() && (cs[i] == ' ' || cs[i] == '\t' || cs[i] == '\n' || cs[i] == '\r')
        invariant
            from <= i <= cs@.len(),
            space_end(cs@, from as int) == space_end(cs@, i as int),
        decreases cs@.len() - i,
    {
        i = i + 1;
    }
    i
}

fn skip_digits(cs: &Vec<char>, from: usize) -> (r: usize)
    requires
        from <= cs@.len(),
    ensures
        r == digits_end(cs@, from as int),
        from <= r <= cs@.len(),
        forall|j: int| from <= j < r ==> is_digit(#[trigger] cs@[j]),
        from < cs@.len() && is_digit(cs@[from as int]) ==> from < r,
{
    let mut i: usize = from;
    while i < cs.len() && digit(cs[i])
        invariant
            from <= i <= cs@.len(),
            digits_end(cs@, from as int) == digits_end(cs@, i as int),
            forall|j: int| from <= j < i ==> is_digit(#[trigger] cs@[j]),
        decreases cs@.len() - i,
    {
        i = i + 1;
    }
    i
}

pub(crate) fn skip_word(cs: &Vec<char>, from: usize) -> (r: usize)
    requires
        from <= cs@.len(),
    ensures
        r == word_end(cs@, from as int),
        from <= r <= cs@.len(),
        from < cs@.len() && is_word_start(cs@[from as int]) ==> from < r,
{
    let mut i: usize = from;
    while i < cs.len() && (word_start(cs[i]) || digit(cs[i]))
        invariant
            from <= i <= cs@.len(),
            word_end(cs@, from as int) == word_end(cs@, i as int),
        decreases cs@.len() - i,
    {
        i = i + 1;
    }
    i
}

pub(crate) fn find_quote(cs: &Vec<char>, from: usize, quote: char) -> (r: Option<usize>)
    requires
        from <= cs@.len(),
    ensures
        match r {
            Some(q) => quote_end(cs@, from as int, quote) == Some(q as int) && from <= q < cs@.len(),
            None => quote_end(cs@, from as int, quote) is None,
        },
{
    let mut i: usize = from;
    while i < cs.len()
        invariant
            from <= i,
            quote_end(cs@, from as int, quote) == quote_end(cs@, i as int, quote),
        decreases cs@.len() - i,
    {
        if cs[i] == quote {
            return Some(i);
        }
        if cs[i] == '\\' {
            if i + 1 >= cs.len() {
                return None;
            }
            i = i + 2;
        } else {
            i = i + 1;
        }
    }
    None
}

/// The value of the digits from `from` up to `to`; `None` where it is out of range.
fn read_digits(cs: &Vec<char>, from: usize, to: usize) -> (r: Option<i64>)
    requires
        from <= to <= cs@.len(),
        forall|j: int| from <= j < to ==> is_digit(#[trigger] cs@[j]),
    ensures
        match r {
            Some(v) => v == digits_value(cs@.subrange(from as int, to as int)),
            None => digits_value(cs@.subrange(from as int, to as int)) > i64::MAX,
        },
{
    let mut v: i64 = 0;
    let mut i: usize = from;
    while i < to
        invariant
            from <= i <= to <= cs@.len(),
            forall|j: int| from <= j < to ==> is_digit(#[trigger] cs@[j]),
            v == digits_value(cs@.subrange(from as int, i as int)),
            0 <= v,
        decreases to - i,
    {
        assert(is_digit(cs@[i as int]));
        let d: i64 = (cs[i] as u32 - '0' as u32) as i64;
        proof {
            assert(cs@.subrange(from as int, i + 1).drop_last() =~= cs@.subrange(from as int, i as int));
        }
        if v > (i64::MAX - d) / 10 {
            proof {
                assert(digits_value(cs@.subrange(from as int, i + 1)) > i64::MAX);
                lemma_digits_grow(cs@, from as int, i + 1, to as int);
            }
            return None;
        }
        v = v * 10 + d;
        i = i + 1;
    }
    Some(v)
}

proof fn lemma_digits_grow(cs: Seq<char>, from: int, mid: int, to: int)
    requires
        0 <= from <= mid <= to <= cs.len(),
        forall|j: int| from <= j < to ==> is_digit(#[trigger] cs[j]),
        digits_value(cs.subrange(from, mid)) >= 0,
    ensures
        digits_value(cs.subrange(from, to)) >= digits_value(cs.subrange(from, mid)),
    decreases to - mid,
{
    if mid < to {
        lemma_digits_grow(cs, from, mid, to - 1);
        assert(cs.subrange(from, to).drop_last() =~= cs.subrange(from, to - 1));
        assert(is_digit(cs[to - 1]));
        assert(cs.subrange(from, to).last() == cs[to - 1]);
    }
}

proof fn lemma_leading(cs: Seq<char>, a: int, e: int)
    requires
        0 <= a < e <= cs.len(),
        cs[a] == '0',
        a + 1 < e,
    ensures
        without_leading_zeros(cs.subrange(a, e)) == without_leading_zeros(cs.subrange(a + 1, e)),
{
    assert(cs.subrange(a, e).skip(1) =~= cs.subrange(a + 1, e));
}

proof fn lemma_trailing(cs: Seq<char>, a: int, e: int)
    requires
        0 <= a < e <= cs.len(),
        cs[e - 1] == '0',
    ensures
        without_trailing_zeros(cs.subrange(a, e)) == without_trailing_zeros(cs.subrange(a, e - 1)),
{
    assert(cs.subrange(a, e).drop_last() =~= cs.subrange(a, e - 1));
}

fn read_fraction(cs: &Vec<char>, p: usize, e: usize, f: usize) -> (r: String)
    requires
        p < e < f <= cs@.len(),
    ensures
        r@ == decimal_fraction(cs@.subrange(p as int, e as int), cs@.subrange(e + 1, f as int)),
{
    let mut a: usize = p;
    while a + 1 < e && cs[a] == '0'
        invariant
            p <= a < e < f <= cs@.len(),
            without_leading_zeros(cs@.subrange(p as int, e as int)) == without_leading_zeros(
                cs@.subrange(a as int, e as int),
            ),
        decreases e - a,
    {
        proof {
            lemma_leading(cs@, a as int, e as int);
        }
        a = a + 1;
    }
    let mut z: usize = f;
    while z > e + 1 && cs[z - 1] == '0'
        invariant
            p < e,
            e + 1 <= z <= f <= cs@.len(),
            without_trailing_zeros(cs@.subrange(e + 1, f as int)) == without_trailing_zeros(
                cs@.subrange(e + 1, z as int),
            ),
        decreases z,
    {
        proof {
            lemma_trailing(cs@, e + 1, z as int);
        }
        z = z - 1;
    }
    let whole = text::string_of(cs, a, e);
    proof {
        let w = cs@.subrange(a as int, e as int);
        assert(w[0] == cs@[a as int]);
        assert(without_leading_zeros(w) == w);
        let t = cs@.subrange(e + 1, z as int);
        if t.len() > 0 {
            assert(t.last() == cs@[z - 1]);
        }
        assert(without_trailing_zeros(t) == t);
    }
    if z == e + 1 {
        whole
    } else {
        let fraction = text::string_of(cs, e + 1, z);
        whole.concat(".").concat(fraction.as_str())
    }
}

fn read_symbol(cs: &Vec<char>, i: usize) -> (r: Option<(Tok, usize)>)
    requires
        i < cs@.len(),
    ensures
        match r {
            Some((t, n)) => symbol_at(cs@, i as int) == Some((t@, n as int)) && 1 <= n && i + n <= cs@.len(),
            None => symbol_at(cs@, i as int) is None,
        },
{
    let n: usize = cs.len();
    let a = cs[i];
    let b = if n - i > 1 { cs[i + 1] } else { '\0' };
    let c = if n - i > 2 { cs[i + 2] } else { '\0' };
    if a == '.' {
        if b == '.' && c == '.' { Some((Tok::Ellipsis, 3)) } else { Some((Tok::Dot, 1)) }
    } else if a == '<' {
        if b == '<' {
            if c == '=' { Some((Tok::ShlEq, 3)) } else { Some((Tok::Shl, 2)) }
        } else if b == '=' { Some((Tok::LtEq, 2)) } else { Some((Tok::Lt, 1)) }
    } else if a == '>' {
        if b == '>' {
            if c == '=' { Some((Tok::ShrEq, 3)) } else { Some((Tok::Shr, 2)) }
        } else if b == '=' { Some((Tok::GtEq, 2)) } else { Some((Tok::Gt, 1)) }
    } else if a == '+' {
        if b == '+' { Some((Tok::PlusPlus, 2)) } else if b == '=' { Some((Tok::PlusEq, 2)) } else { Some((Tok::Plus, 1)) }
    } else if a == '-' {
        if b == '-' { Some((Tok::MinusMinus, 2)) } else if b == '=' { Some((Tok::MinusEq, 2)) } else { Some((Tok::Minus, 1)) }
    } else if a == '&' {
        if b == '&' { Some((Tok::AndAnd, 2)) } else if b == '=' { Some((Tok::AmpEq, 2)) } else { Some((Tok::Amp, 1)) }
    } else if a == '|' {
        if b == '|' { Some((Tok::OrOr, 2)) } else if b == '=' { Some((Tok::PipeEq, 2)) } else { Some((Tok::Pipe, 1)) }
    } else if a == '*' {
        if b == '=' { Some((Tok::StarEq, 2)) } else { Some((Tok::Star, 1)) }
    } else if a == '/' {
        if b == '=' { Some((Tok::SlashEq, 2)) } else { Some((Tok::Slash, 1)) }
    } else if a == '%' {
        if b == '=' { Some((Tok::PercentEq, 2)) } else { Some((Tok::Percent, 1)) }
    } else if a == '^' {
        if b == '=' { Some((Tok::CaretEq, 2)) } else { Some((Tok::Caret, 1)) }
    } else if a == '=' {
        if b == '=' { Some((Tok::EqEq, 2)) } else { Some((Tok::Assign, 1)) }
    } else if a == '!' {
        if b == '=' { Some((Tok::NotEq, 2)) } else { Some((Tok::Bang, 1)) }
    } else if a == '(' { Some((Tok::LParen, 1))
    } else if a == ')' { Some((Tok::RParen, 1))
    } else if a == '[' { Some((Tok::LBracket, 1))
    } else if a == ']' { Some((Tok::RBracket, 1))
    } else if a == '{' { Some((Tok::LBrace, 1))
    } else if a == '}' { Some((Tok::RBrace, 1))
    } else if a == ',' { Some((Tok::Comma, 1))
    } else if a == ';' { Some((Tok::Semi, 1))
    } else if a == ':' { Some((Tok::Colon, 1))
    } else if a == '~' { Some((Tok::Tilde, 1))
    } else { None }
}

/// The outcome of one step of the lexer.
enum Step {
    End,
    Token(SpannedTok),
    Bad(ExprParseError),
}

fn token_step(kind: Tok, start: usize, end: usize) -> (r: Step)
    ensures
        r is Token,
        r->Token_0.kind == kind,
        r->Token_0.start == start,
        r->Token_0.end == end,
{
    Step::Token(SpannedTok { kind, start, end })
}

fn bad_step(msg: String) -> (r: Step)
    ensures
        r is Bad,
        r->Bad_0@ == ExprErrorV::Custom(msg@),
{
    Step::Bad(ExprParseError::Custom(msg))
}

fn next_token(cs: &Vec<char>, i: usize) -> (r: Step)
    requires
        i <= cs@.len(),
    ensures
        match r {
            Step::End => lex_at(cs@, i as int) is End,
            Step::Token(t) => lex_at(cs@, i as int) == LexV::Token(t.kind@, t.start as int, t.end as int) && i
                < t.end <= cs@.len(),
            Step::Bad(e) => lex_at(cs@, i as int) == LexV::Bad(e@),
        },
{
    let p = skip_space(cs, i);
    if p >= cs.len() {
        return Step::End;
    }
    let c = cs[p];
    if digit(c) {
        let e = skip_digits(cs, p);
        if peek(cs, e) == '.' && e + 1 < cs.len() && digit(cs[e + 1]) {
            let f = skip_digits(cs, e + 1);
            let s = read_fraction(cs, p, e, f);
            return token_step(Tok::FloatLit(s), p, f);
        }
        return match read_digits(cs, p, e) {
            Some(v) => token_step(Tok::IntLit(v), p, e),
            None => bad_step(
                "integer literal `".to_owned().concat(text::string_of(cs, p, e).as_str()).concat("` is out of range"),
            ),
        };
    }
    if word_start(c) {
        let e = skip_word(cs, p);
        return token_step(word_tok(text::string_of(cs, p, e)), p, e);
    }
    if c == '"' {
        return match find_quote(cs, p + 1, '"') {
            None => bad_step("unterminated string literal".to_owned()),
            Some(q) => match unescape_range(cs, p + 1, q) {
                Some(s) => token_step(Tok::StringLit(s), p, q + 1),
                None => bad_step("invalid string literal".to_owned()),
            },
        };
    }
    if c == '\'' {
        return match find_quote(cs, p + 1, '\'') {
            None => bad_step("unterminated character literal".to_owned()),
            Some(q) => match unescape_range(cs, p + 1, q) {
                Some(s) => {
                    let content = text::chars_of(s.as_str());
                    if content.len() == 1 {
                        token_step(Tok::CharLit(content[0]), p, q + 1)
                    } else {
                        bad_step("invalid character literal".to_owned())
                    }
                },
                None => bad_step("invalid character literal".to_owned()),
            },
        };
    }
    match read_symbol(cs, p) {
        Some((t, n)) => token_step(t, p, p + n),
        None => {
            let mut shown = "unexpected character `".to_owned();
            let ghost head = shown@;
            shown.push(c);
            proof {
                assert(shown@ =~= head + seq![c]);
            }
            bad_step(shown.concat("`"))
        },
    }
}

/// The result of the lexer as a value of the model.
pub open spec fn lexed(r: Result<Vec<SpannedTok>, ExprParseError>) -> Result<Seq<TokV>, ExprErrorV> {
    match r {
        Ok(v) => Ok(toks_v(v@)),
        Err(e) => Err(e@),
    }
}

/// Splits a text into tokens.
pub fn tokenize(s: &str) -> (r: Result<Vec<SpannedTok>, ExprParseError>)
    ensures
        lexed(r) == tokens_of(s@),
        r is Ok ==> ranges_v(r->Ok_0@) == ranges_from(s@, 0, Seq::empty()),
{
    let cs = text::chars_of(s);
    let mut out: Vec<SpannedTok> = Vec::new();
    let mut i: usize = 0;
    proof {
        assert(toks_v(out@) =~= Seq::<TokV>::empty());
        assert(ranges_v(out@) =~= Seq::<(int, int)>::empty());
    }
    loop
        invariant
            cs@ == s@,
            i <= cs@.len(),
            tokens_of(s@) == lex_from(cs@, i as int, toks_v(out@)),
            ranges_from(s@, 0, Seq::empty()) == ranges_from(cs@, i as int, ranges_v(out@)),
        decreases cs@.len() - i,
    {
        match next_token(&cs, i) {
            Step::End => {
                return Ok(out);
            },
            Step::Bad(e) => {
                return Err(e);
            },
            Step::Token(t) => {
                i = t.end;
                proof {
                    assert(toks_v(out@.push(t)) =~= toks_v(out@).push(t.kind@));
                    assert(ranges_v(out@.push(t)) =~= ranges_v(out@).push((t.start as int, t.end as int)));
                }
                out.push(t);
            },
        }
    }
}

/// The numbers with a fraction that begin anywhere in a text, as literals hold them.
pub fn fractions(source: &str) -> (r: Vec<String>)
    ensures
        text::texts(r@) == fractions_from(source@, 0, Seq::empty()),
{
    let cs = text::chars_of(source);
    let mut out: Vec<String> = Vec::new();
    let mut i: usize = 0;
    proof {
        assert(text::texts(out@) =~= Seq::<Seq<char>>::empty());
    }
    while i < cs.len()
        invariant
            i <= cs@.len(),
            cs@ == source@,
            fractions_from(source@, 0, Seq::empty()) == fractions_from(source@, i as int, text::texts(out@)),
        decreases cs@.len() - i,
    {
        if digit(cs[i]) {
            let e = skip_digits(&cs, i);
            if e < cs.len() && cs[e] == '.' && e + 1 < cs.len() && digit(cs[e + 1]) {
                let f = skip_digits(&cs, e + 1);
                let s = read_fraction(&cs, i, e, f);
                proof {
                    assert(text::texts(out@.push(s)) =~= text::texts(out@).push(s@));
                }
                out.push(s);
            }
        }
        i = i + 1;
    }
    out
}

} // verus!
