//! The operators and tokens of Kit as they are written: what is written for one is read as that one.
use crate::ast::{AssignmentOperator, BinaryOperator, UnaryOperator};
use crate::binding_power::{assign_op_of, binary_op_of, step_op_of, unary_op_of};
use crate::c_text::{assignment_c, binary_c, is_postfix, unary_c};
use crate::diagnostics::ExprErrorV;
use crate::lexer::{lex_at, lex_from, space_end, symbol_at, tokens_of, LexV};
use crate::token::{tok_label, word_token, TokV};
use crate::tree_expr::{assignment_of, binary_of, unary_of};
use vstd::prelude::*;

verus! {

/// Whether a text is read as the one token.
pub open spec fn reads_as(s: Seq<char>, t: TokV) -> bool {
    tokens_of(s) == Ok::<Seq<TokV>, ExprErrorV>(seq![t])
}

proof fn lemma_one_token(s: Seq<char>, t: TokV)
    requires
        s.len() > 0,
        lex_at(s, 0) == LexV::Token(t, 0, s.len() as int),
    ensures
        reads_as(s, t),
{
    let one = Seq::<TokV>::empty().push(t);
    assert(lex_at(s, s.len() as int) == LexV::End);
    assert(lex_from(s, s.len() as int, one) == Ok::<Seq<TokV>, ExprErrorV>(one));
    assert(one =~= seq![t]);
}

proof fn lemma_symbols()
    ensures
        "!"@ =~= seq!['!'],
        "!="@ =~= seq!['!', '='],
        "%"@ =~= seq!['%'],
        "%="@ =~= seq!['%', '='],
        "&"@ =~= seq!['&'],
        "&&"@ =~= seq!['&', '&'],
        "&="@ =~= seq!['&', '='],
        "("@ =~= seq!['('],
        ")"@ =~= seq![')'],
        "*"@ =~= seq!['*'],
        "*="@ =~= seq!['*', '='],
        "+"@ =~= seq!['+'],
        "++"@ =~= seq!['+', '+'],
        "+="@ =~= seq!['+', '='],
        ","@ =~= seq![','],
        "-"@ =~= seq!['-'],
        "--"@ =~= seq!['-', '-'],
        "-="@ =~= seq!['-', '='],
        "."@ =~= seq!['.'],
        "..."@ =~= seq!['.', '.', '.'],
        "/"@ =~= seq!['/'],
        "/="@ =~= seq!['/', '='],
        ":"@ =~= seq![':'],
        ";"@ =~= seq![';'],
        "<"@ =~= seq!['<'],
        "<<"@ =~= seq!['<', '<'],
        "<<="@ =~= seq!['<', '<', '='],
        "<="@ =~= seq!['<', '='],
        "="@ =~= seq!['='],
        "=="@ =~= seq!['=', '='],
        ">"@ =~= seq!['>'],
        ">="@ =~= seq!['>', '='],
        ">>"@ =~= seq!['>', '>'],
        ">>="@ =~= seq!['>', '>', '='],
        "["@ =~= seq!['['],
        "]"@ =~= seq![']'],
        "^"@ =~= seq!['^'],
        "^="@ =~= seq!['^', '='],
        "{"@ =~= seq!['{'],
        "|"@ =~= seq!['|'],
        "|="@ =~= seq!['|', '='],
        "||"@ =~= seq!['|', '|'],
        "}"@ =~= seq!['}'],
        "~"@ =~= seq!['~'],
{
    reveal_strlit("!");
    reveal_strlit("!=");
    reveal_strlit("%");
    reveal_strlit("%=");
    reveal_strlit("&");
    reveal_strlit("&&");
    reveal_strlit("&=");
    reveal_strlit("(");
    reveal_strlit(")");
    reveal_strlit("*");
    reveal_strlit("*=");
    reveal_strlit("+");
    reveal_strlit("++");
    reveal_strlit("+=");
    reveal_strlit(",");
    reveal_strlit("-");
    reveal_strlit("--");
    reveal_strlit("-=");
    reveal_strlit(".");
    reveal_strlit("...");
    reveal_strlit("/");
    reveal_strlit("/=");
    reveal_strlit(":");
    reveal_strlit(";");
    reveal_strlit("<");
    reveal_strlit("<<");
    reveal_strlit("<<=");
    reveal_strlit("<=");
    reveal_strlit("=");
    reveal_strlit("==");
    reveal_strlit(">");
    reveal_strlit(">=");
    reveal_strlit(">>");
    reveal_strlit(">>=");
    reveal_strlit("[");
    reveal_strlit("]");
    reveal_strlit("^");
    reveal_strlit("^=");
    reveal_strlit("{");
    reveal_strlit("|");
    reveal_strlit("|=");
    reveal_strlit("||");
    reveal_strlit("}");
    reveal_strlit("~");
}

proof fn lemma_symbol_reads(s: Seq<char>, t: TokV)
    requires
        s.len() > 0,
        symbol_at(s, 0) == Some((t, s.len() as int)),
        space_end(s, 0) == 0,
        s[0] != '"' && s[0] != '\'',
        !crate::lexer::is_digit(s[0]) && !crate::lexer::is_word_start(s[0]),
    ensures
        reads_as(s, t),
{
    lemma_one_token(s, t);
}

/// The C spelling of a binary operator is what Kit writes for it: the lexer and the expression parser
/// read it as that operator.
pub proof fn law_binary_operators_read_back(op: BinaryOperator) -> (t: TokV)
    ensures
        reads_as(binary_c(op), t),
        binary_op_of(t) == Some(op),
        binary_of(binary_c(op)) == Some(op),
{
    lemma_symbols();
    let s = binary_c(op);
    let t = (symbol_at(s, 0)->0).0;
    assert(space_end(s, 0) == 0);
    lemma_symbol_reads(s, t);
    t
}

/// So is the C spelling of an assignment operator.
pub proof fn law_assignment_operators_read_back(op: AssignmentOperator) -> (t: TokV)
    ensures
        reads_as(assignment_c(op), t),
        assign_op_of(t) == Some(op),
        assignment_of(assignment_c(op)) == Some(op),
{
    lemma_symbols();
    let s = assignment_c(op);
    let t = (symbol_at(s, 0)->0).0;
    assert(space_end(s, 0) == 0);
    lemma_symbol_reads(s, t);
    t
}

/// So is the C spelling of a unary operator: in front of its operand, or behind it where the operator
/// stands there.
pub proof fn law_unary_operators_read_back(op: UnaryOperator) -> (t: TokV)
    ensures
        reads_as(unary_c(op), t),
        !is_postfix(op) ==> unary_op_of(t) == Some(op) && unary_of(unary_c(op)) == Some(op),
        is_postfix(op) ==> step_op_of(t) == Some(op),
{
    lemma_symbols();
    let s = unary_c(op);
    let t = (symbol_at(s, 0)->0).0;
    assert(space_end(s, 0) == 0);
    lemma_symbol_reads(s, t);
    t
}

/// An assignment that does more than assign is written with the operator that it applies and an
/// equals sign.
pub proof fn law_compound_assignment_names_its_operator(op: AssignmentOperator, b: BinaryOperator)
    requires
        assignment_c(op) == binary_c(b) + "="@,
    ensures
        !(op is Assign),
        op is AddAssign <==> b is Add,
        op is SubAssign <==> b is Sub,
        op is MulAssign <==> b is Mul,
        op is DivAssign <==> b is Div,
        op is ModAssign <==> b is Mod,
        op is AndAssign <==> b is BitAnd,
        op is OrAssign <==> b is BitOr,
        op is XorAssign <==> b is BitXor,
        op is ShlAssign <==> b is Shl,
        op is ShrAssign <==> b is Shr,
{
    lemma_symbols();
    let a = assignment_c(op);
    let c = binary_c(b) + "="@;
    assert(a.len() == c.len());
    assert(forall|i: int| 0 <= i < a.len() ==> #[trigger] a[i] == c[i]);
    assert(a[0] == binary_c(b)[0]);
}

/// Whether a token is shown as what it is written as.
pub open spec fn shown_as(t: TokV, s: Seq<char>) -> bool {
    tok_label(t) == seq!['`'] + s + seq!['`']
}

proof fn lemma_first_symbols(t: TokV) -> (s: Seq<char>)
    requires
        t is LParen || t is RParen || t is LBracket || t is RBracket || t is LBrace || t is RBrace || t is Comma || t is Semi || t is Dot || t is Colon || t is Ellipsis || t is Plus || t is Minus || t is Star || t is Slash || t is Percent || t is EqEq || t is NotEq || t is LtEq || t is GtEq || t is Lt || t is Gt,
    ensures
        shown_as(t, s),
        reads_as(s, t),
{
    lemma_symbols();
    match t {
        TokV::LParen => {
            reveal_strlit("`(`");
            assert("`(`"@ =~= seq!['`'] + "("@ + seq!['`']);
            assert(lex_at("("@, 0) == LexV::Token(TokV::LParen, 0, 1));
            lemma_one_token("("@, t);
            "("@
        },
        TokV::RParen => {
            reveal_strlit("`)`");
            assert("`)`"@ =~= seq!['`'] + ")"@ + seq!['`']);
            assert(lex_at(")"@, 0) == LexV::Token(TokV::RParen, 0, 1));
            lemma_one_token(")"@, t);
            ")"@
        },
        TokV::LBracket => {
            reveal_strlit("`[`");
            assert("`[`"@ =~= seq!['`'] + "["@ + seq!['`']);
            assert(lex_at("["@, 0) == LexV::Token(TokV::LBracket, 0, 1));
            lemma_one_token("["@, t);
            "["@
        },
        TokV::RBracket => {
            reveal_strlit("`]`");
            assert("`]`"@ =~= seq!['`'] + "]"@ + seq!['`']);
            assert(lex_at("]"@, 0) == LexV::Token(TokV::RBracket, 0, 1));
            lemma_one_token("]"@, t);
            "]"@
        },
        TokV::LBrace => {
            reveal_strlit("`{`");
            assert("`{`"@ =~= seq!['`'] + "{"@ + seq!['`']);
            assert(lex_at("{"@, 0) == LexV::Token(TokV::LBrace, 0, 1));
            lemma_one_token("{"@, t);
            "{"@
        },
        TokV::RBrace => {
            reveal_strlit("`}`");
            assert("`}`"@ =~= seq!['`'] + "}"@ + seq!['`']);
            assert(lex_at("}"@, 0) == LexV::Token(TokV::RBrace, 0, 1));
            lemma_one_token("}"@, t);
            "}"@
        },
        TokV::Comma => {
            reveal_strlit("`,`");
            assert("`,`"@ =~= seq!['`'] + ","@ + seq!['`']);
            assert(lex_at(","@, 0) == LexV::Token(TokV::Comma, 0, 1));
            lemma_one_token(","@, t);
            ","@
        },
        TokV::Semi => {
            reveal_strlit("`;`");
            assert("`;`"@ =~= seq!['`'] + ";"@ + seq!['`']);
            assert(lex_at(";"@, 0) == LexV::Token(TokV::Semi, 0, 1));
            lemma_one_token(";"@, t);
            ";"@
        },
        TokV::Dot => {
            reveal_strlit("`.`");
            assert("`.`"@ =~= seq!['`'] + "."@ + seq!['`']);
            assert(lex_at("."@, 0) == LexV::Token(TokV::Dot, 0, 1));
            lemma_one_token("."@, t);
            "."@
        },
        TokV::Colon => {
            reveal_strlit("`:`");
            assert("`:`"@ =~= seq!['`'] + ":"@ + seq!['`']);
            assert(lex_at(":"@, 0) == LexV::Token(TokV::Colon, 0, 1));
            lemma_one_token(":"@, t);
            ":"@
        },
        TokV::Ellipsis => {
            reveal_strlit("`...`");
            assert("`...`"@ =~= seq!['`'] + "..."@ + seq!['`']);
            assert(lex_at("..."@, 0) == LexV::Token(TokV::Ellipsis, 0, 3));
            lemma_one_token("..."@, t);
            "..."@
        },
        TokV::Plus => {
            reveal_strlit("`+`");
            assert("`+`"@ =~= seq!['`'] + "+"@ + seq!['`']);
            assert(lex_at("+"@, 0) == LexV::Token(TokV::Plus, 0, 1));
            lemma_one_token("+"@, t);
            "+"@
        },
        TokV::Minus => {
            reveal_strlit("`-`");
            assert("`-`"@ =~= seq!['`'] + "-"@ + seq!['`']);
            assert(lex_at("-"@, 0) == LexV::Token(TokV::Minus, 0, 1));
            lemma_one_token("-"@, t);
            "-"@
        },
        TokV::Star => {
            reveal_strlit("`*`");
            assert("`*`"@ =~= seq!['`'] + "*"@ + seq!['`']);
            assert(lex_at("*"@, 0) == LexV::Token(TokV::Star, 0, 1));
            lemma_one_token("*"@, t);
            "*"@
        },
        TokV::Slash => {
            reveal_strlit("`/`");
            assert("`/`"@ =~= seq!['`'] + "/"@ + seq!['`']);
            assert(lex_at("/"@, 0) == LexV::Token(TokV::Slash, 0, 1));
            lemma_one_token("/"@, t);
            "/"@
        },
        TokV::Percent => {
            reveal_strlit("`%`");
            assert("`%`"@ =~= seq!['`'] + "%"@ + seq!['`']);
            assert(lex_at("%"@, 0) == LexV::Token(TokV::Percent, 0, 1));
            lemma_one_token("%"@, t);
            "%"@
        },
        TokV::EqEq => {
            reveal_strlit("`==`");
            assert("`==`"@ =~= seq!['`'] + "=="@ + seq!['`']);
            assert(lex_at("=="@, 0) == LexV::Token(TokV::EqEq, 0, 2));
            lemma_one_token("=="@, t);
            "=="@
        },
        TokV::NotEq => {
            reveal_strlit("`!=`");
            assert("`!=`"@ =~= seq!['`'] + "!="@ + seq!['`']);
            assert(lex_at("!="@, 0) == LexV::Token(TokV::NotEq, 0, 2));
            lemma_one_token("!="@, t);
            "!="@
        },
        TokV::LtEq => {
            reveal_strlit("`<=`");
            assert("`<=`"@ =~= seq!['`'] + "<="@ + seq!['`']);
            assert(lex_at("<="@, 0) == LexV::Token(TokV::LtEq, 0, 2));
            lemma_one_token("<="@, t);
            "<="@
        },
        TokV::GtEq => {
            reveal_strlit("`>=`");
            assert("`>=`"@ =~= seq!['`'] + ">="@ + seq!['`']);
            assert(lex_at(">="@, 0) == LexV::Token(TokV::GtEq, 0, 2));
            lemma_one_token(">="@, t);
            ">="@
        },
        TokV::Lt => {
            reveal_strlit("`<`");
            assert("`<`"@ =~= seq!['`'] + "<"@ + seq!['`']);
            assert(lex_at("<"@, 0) == LexV::Token(TokV::Lt, 0, 1));
            lemma_one_token("<"@, t);
            "<"@
        },
        TokV::Gt => {
            reveal_strlit("`>`");
            assert("`>`"@ =~= seq!['`'] + ">"@ + seq!['`']);
            assert(lex_at(">"@, 0) == LexV::Token(TokV::Gt, 0, 1));
            lemma_one_token(">"@, t);
            ">"@
        },
        _ => Seq::empty(),
    }
}

proof fn lemma_other_symbols(t: TokV) -> (s: Seq<char>)
    requires
        t is AndAnd || t is OrOr || t is Bang || t is Amp || t is Pipe || t is Caret || t is Tilde || t is Shl || t is Shr || t is PlusPlus || t is MinusMinus || t is ShlEq || t is ShrEq || t is PlusEq || t is MinusEq || t is StarEq || t is SlashEq || t is PercentEq || t is AmpEq || t is PipeEq || t is CaretEq || t is Assign,
    ensures
        shown_as(t, s),
        reads_as(s, t),
{
    lemma_symbols();
    match t {
        TokV::AndAnd => {
            reveal_strlit("`&&`");
            assert("`&&`"@ =~= seq!['`'] + "&&"@ + seq!['`']);
            assert(lex_at("&&"@, 0) == LexV::Token(TokV::AndAnd, 0, 2));
            lemma_one_token("&&"@, t);
            "&&"@
        },
        TokV::OrOr => {
            reveal_strlit("`||`");
            assert("`||`"@ =~= seq!['`'] + "||"@ + seq!['`']);
            assert(lex_at("||"@, 0) == LexV::Token(TokV::OrOr, 0, 2));
            lemma_one_token("||"@, t);
            "||"@
        },
        TokV::Bang => {
            reveal_strlit("`!`");
            assert("`!`"@ =~= seq!['`'] + "!"@ + seq!['`']);
            assert(lex_at("!"@, 0) == LexV::Token(TokV::Bang, 0, 1));
            lemma_one_token("!"@, t);
            "!"@
        },
        TokV::Amp => {
            reveal_strlit("`&`");
            assert("`&`"@ =~= seq!['`'] + "&"@ + seq!['`']);
            assert(lex_at("&"@, 0) == LexV::Token(TokV::Amp, 0, 1));
            lemma_one_token("&"@, t);
            "&"@
        },
        TokV::Pipe => {
            reveal_strlit("`|`");
            assert("`|`"@ =~= seq!['`'] + "|"@ + seq!['`']);
            assert(lex_at("|"@, 0) == LexV::Token(TokV::Pipe, 0, 1));
            lemma_one_token("|"@, t);
            "|"@
        },
        TokV::Caret => {
            reveal_strlit("`^`");
            assert("`^`"@ =~= seq!['`'] + "^"@ + seq!['`']);
            assert(lex_at("^"@, 0) == LexV::Token(TokV::Caret, 0, 1));
            lemma_one_token("^"@, t);
            "^"@
        },
        TokV::Tilde => {
            reveal_strlit("`~`");
            assert("`~`"@ =~= seq!['`'] + "~"@ + seq!['`']);
            assert(lex_at("~"@, 0) == LexV::Token(TokV::Tilde, 0, 1));
            lemma_one_token("~"@, t);
            "~"@
        },
        TokV::Shl => {
            reveal_strlit("`<<`");
            assert("`<<`"@ =~= seq!['`'] + "<<"@ + seq!['`']);
            assert(lex_at("<<"@, 0) == LexV::Token(TokV::Shl, 0, 2));
            lemma_one_token("<<"@, t);
            "<<"@
        },
        TokV::Shr => {
            reveal_strlit("`>>`");
            assert("`>>`"@ =~= seq!['`'] + ">>"@ + seq!['`']);
            assert(lex_at(">>"@, 0) == LexV::Token(TokV::Shr, 0, 2));
            lemma_one_token(">>"@, t);
            ">>"@
        },
        TokV::PlusPlus => {
            reveal_strlit("`++`");
            assert("`++`"@ =~= seq!['`'] + "++"@ + seq!['`']);
            assert(lex_at("++"@, 0) == LexV::Token(TokV::PlusPlus, 0, 2));
            lemma_one_token("++"@, t);
            "++"@
        },
        TokV::MinusMinus => {
            reveal_strlit("`--`");
            assert("`--`"@ =~= seq!['`'] + "--"@ + seq!['`']);
            assert(lex_at("--"@, 0) == LexV::Token(TokV::MinusMinus, 0, 2));
            lemma_one_token("--"@, t);
            "--"@
        },
        TokV::ShlEq => {
            reveal_strlit("`<<=`");
            assert("`<<=`"@ =~= seq!['`'] + "<<="@ + seq!['`']);
            assert(lex_at("<<="@, 0) == LexV::Token(TokV::ShlEq, 0, 3));
            lemma_one_token("<<="@, t);
            "<<="@
        },
        TokV::ShrEq => {
            reveal_strlit("`>>=`");
            assert("`>>=`"@ =~= seq!['`'] + ">>="@ + seq!['`']);
            assert(lex_at(">>="@, 0) == LexV::Token(TokV::ShrEq, 0, 3));
            lemma_one_token(">>="@, t);
            ">>="@
        },
        TokV::PlusEq => {
            reveal_strlit("`+=`");
            assert("`+=`"@ =~= seq!['`'] + "+="@ + seq!['`']);
            assert(lex_at("+="@, 0) == LexV::Token(TokV::PlusEq, 0, 2));
            lemma_one_token("+="@, t);
            "+="@
        },
        TokV::MinusEq => {
            reveal_strlit("`-=`");
            assert("`-=`"@ =~= seq!['`'] + "-="@ + seq!['`']);
            assert(lex_at("-="@, 0) == LexV::Token(TokV::MinusEq, 0, 2));
            lemma_one_token("-="@, t);
            "-="@
        },
        TokV::StarEq => {
            reveal_strlit("`*=`");
            assert("`*=`"@ =~= seq!['`'] + "*="@ + seq!['`']);
            assert(lex_at("*="@, 0) == LexV::Token(TokV::StarEq, 0, 2));
            lemma_one_token("*="@, t);
            "*="@
        },
        TokV::SlashEq => {
            reveal_strlit("`/=`");
            assert("`/=`"@ =~= seq!['`'] + "/="@ + seq!['`']);
            assert(lex_at("/="@, 0) == LexV::Token(TokV::SlashEq, 0, 2));
            lemma_one_token("/="@, t);
            "/="@
        },
        TokV::PercentEq => {
            reveal_strlit("`%=`");
            assert("`%=`"@ =~= seq!['`'] + "%="@ + seq!['`']);
            assert(lex_at("%="@, 0) == LexV::Token(TokV::PercentEq, 0, 2));
            lemma_one_token("%="@, t);
            "%="@
        },
        TokV::AmpEq => {
            reveal_strlit("`&=`");
            assert("`&=`"@ =~= seq!['`'] + "&="@ + seq!['`']);
            assert(lex_at("&="@, 0) == LexV::Token(TokV::AmpEq, 0, 2));
            lemma_one_token("&="@, t);
            "&="@
        },
        TokV::PipeEq => {
            reveal_strlit("`|=`");
            assert("`|=`"@ =~= seq!['`'] + "|="@ + seq!['`']);
            assert(lex_at("|="@, 0) == LexV::Token(TokV::PipeEq, 0, 2));
            lemma_one_token("|="@, t);
            "|="@
        },
        TokV::CaretEq => {
            reveal_strlit("`^=`");
            assert("`^=`"@ =~= seq!['`'] + "^="@ + seq!['`']);
            assert(lex_at("^="@, 0) == LexV::Token(TokV::CaretEq, 0, 2));
            lemma_one_token("^="@, t);
            "^="@
        },
        TokV::Assign => {
            reveal_strlit("`=`");
            assert("`=`"@ =~= seq!['`'] + "="@ + seq!['`']);
            assert(lex_at("="@, 0) == LexV::Token(TokV::Assign, 0, 1));
            lemma_one_token("="@, t);
            "="@
        },
        _ => Seq::empty(),
    }
}

/// A symbol is shown between backticks as it is written: what stands between them is read as that symbol.
pub proof fn law_symbols_are_shown_as_written(t: TokV) -> (s: Seq<char>)
    requires
        t is LParen || t is RParen || t is LBracket || t is RBracket || t is LBrace || t is RBrace || t is Comma || t is Semi || t is Dot || t is Colon || t is Ellipsis || t is Plus || t is Minus || t is Star || t is Slash || t is Percent || t is EqEq || t is NotEq || t is LtEq || t is GtEq || t is Lt || t is Gt || t is AndAnd || t is OrOr || t is Bang || t is Amp || t is Pipe || t is Caret || t is Tilde || t is Shl || t is Shr || t is PlusPlus || t is MinusMinus || t is ShlEq || t is ShrEq || t is PlusEq || t is MinusEq || t is StarEq || t is SlashEq || t is PercentEq || t is AmpEq || t is PipeEq || t is CaretEq || t is Assign,
    ensures
        shown_as(t, s),
        reads_as(s, t),
{
    if t is LParen || t is RParen || t is LBracket || t is RBracket || t is LBrace || t is RBrace || t is Comma || t is Semi || t is Dot || t is Colon || t is Ellipsis || t is Plus || t is Minus || t is Star || t is Slash || t is Percent || t is EqEq || t is NotEq || t is LtEq || t is GtEq || t is Lt || t is Gt {
        lemma_first_symbols(t)
    } else {
        lemma_other_symbols(t)
    }
}

/// A keyword is shown between backticks as it is written.
pub proof fn law_keywords_are_shown_as_written(t: TokV) -> (s: Seq<char>)
    requires
        t is KwIf || t is KwThen || t is KwElse || t is KwTrue || t is KwFalse || t is KwNull || t is KwThis || t is KwSelf || t is KwSizeof || t is KwDefined || t is KwUnsafe || t is KwStatic || t is KwImplicit || t is KwEmpty || t is KwStruct,
    ensures
        shown_as(t, s),
        word_token(s) == t,
{
    reveal_strlit("if");
    assert("if"@.len() == 2);
    reveal_strlit("then");
    assert("then"@.len() == 4);
    reveal_strlit("else");
    assert("else"@.len() == 4);
    reveal_strlit("true");
    assert("true"@.len() == 4);
    reveal_strlit("false");
    assert("false"@.len() == 5);
    reveal_strlit("null");
    assert("null"@.len() == 4);
    reveal_strlit("this");
    assert("this"@.len() == 4);
    reveal_strlit("Self");
    assert("Self"@.len() == 4);
    reveal_strlit("sizeof");
    assert("sizeof"@.len() == 6);
    reveal_strlit("defined");
    assert("defined"@.len() == 7);
    reveal_strlit("unsafe");
    assert("unsafe"@.len() == 6);
    reveal_strlit("static");
    assert("static"@.len() == 6);
    reveal_strlit("implicit");
    assert("implicit"@.len() == 8);
    reveal_strlit("empty");
    assert("empty"@.len() == 5);
    reveal_strlit("struct");
    assert("struct"@.len() == 6);
    assert("then"@[0] != "else"@[0]);
    assert("then"@[1] != "true"@[1]);
    assert("then"@[0] != "null"@[0]);
    assert("then"@[2] != "this"@[2]);
    assert("then"@[0] != "Self"@[0]);
    assert("else"@[0] != "true"@[0]);
    assert("else"@[0] != "null"@[0]);
    assert("else"@[0] != "this"@[0]);
    assert("else"@[0] != "Self"@[0]);
    assert("true"@[0] != "null"@[0]);
    assert("true"@[1] != "this"@[1]);
    assert("true"@[0] != "Self"@[0]);
    assert("null"@[0] != "this"@[0]);
    assert("null"@[0] != "Self"@[0]);
    assert("this"@[0] != "Self"@[0]);
    assert("false"@[0] != "empty"@[0]);
    assert("sizeof"@[0] != "unsafe"@[0]);
    assert("sizeof"@[1] != "static"@[1]);
    assert("sizeof"@[1] != "struct"@[1]);
    assert("unsafe"@[0] != "static"@[0]);
    assert("unsafe"@[0] != "struct"@[0]);
    assert("static"@[2] != "struct"@[2]);
    match t {
        TokV::KwIf => {
            reveal_strlit("`if`");
            assert("`if`"@ =~= seq!['`'] + "if"@ + seq!['`']);
            "if"@
        },
        TokV::KwThen => {
            reveal_strlit("`then`");
            assert("`then`"@ =~= seq!['`'] + "then"@ + seq!['`']);
            "then"@
        },
        TokV::KwElse => {
            reveal_strlit("`else`");
            assert("`else`"@ =~= seq!['`'] + "else"@ + seq!['`']);
            "else"@
        },
        TokV::KwTrue => {
            reveal_strlit("`true`");
            assert("`true`"@ =~= seq!['`'] + "true"@ + seq!['`']);
            "true"@
        },
        TokV::KwFalse => {
            reveal_strlit("`false`");
            assert("`false`"@ =~= seq!['`'] + "false"@ + seq!['`']);
            "false"@
        },
        TokV::KwNull => {
            reveal_strlit("`null`");
            assert("`null`"@ =~= seq!['`'] + "null"@ + seq!['`']);
            "null"@
        },
        TokV::KwThis => {
            reveal_strlit("`this`");
            assert("`this`"@ =~= seq!['`'] + "this"@ + seq!['`']);
            "this"@
        },
        TokV::KwSelf => {
            reveal_strlit("`Self`");
            assert("`Self`"@ =~= seq!['`'] + "Self"@ + seq!['`']);
            "Self"@
        },
        TokV::KwSizeof => {
            reveal_strlit("`sizeof`");
            assert("`sizeof`"@ =~= seq!['`'] + "sizeof"@ + seq!['`']);
            "sizeof"@
        },
        TokV::KwDefined => {
            reveal_strlit("`defined`");
            assert("`defined`"@ =~= seq!['`'] + "defined"@ + seq!['`']);
            "defined"@
        },
        TokV::KwUnsafe => {
            reveal_strlit("`unsafe`");
            assert("`unsafe`"@ =~= seq!['`'] + "unsafe"@ + seq!['`']);
            "unsafe"@
        },
        TokV::KwStatic => {
            reveal_strlit("`static`");
            assert("`static`"@ =~= seq!['`'] + "static"@ + seq!['`']);
            "static"@
        },
        TokV::KwImplicit => {
            reveal_strlit("`implicit`");
            assert("`implicit`"@ =~= seq!['`'] + "implicit"@ + seq!['`']);
            "implicit"@
        },
        TokV::KwEmpty => {
            reveal_strlit("`empty`");
            assert("`empty`"@ =~= seq!['`'] + "empty"@ + seq!['`']);
            "empty"@
        },
        TokV::KwStruct => {
            reveal_strlit("`struct`");
            assert("`struct`"@ =~= seq!['`'] + "struct"@ + seq!['`']);
            "struct"@
        },
        _ => Seq::empty(),
    }
}

} // verus!
