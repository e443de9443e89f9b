//! Errors of the expression parser.
use crate::text;
use crate::token::{labels, show_tok, tok_shown, Tok, TokV};
use vstd::prelude::*;

verus! {

/// An error of the expression parser.
#[derive(Clone, Debug, PartialEq)]
pub enum ExprParseError {
    /// A token was found where it was not expected.
    UnexpectedToken { found: Tok, expected: Vec<&'static str> },
    /// The tokens ended before the expression was complete.
    UnexpectedEof { expected: Vec<&'static str> },
    /// Any other error.
    Custom(String),
}

/// The contents of an error of the expression parser.
pub enum ExprErrorV {
    UnexpectedToken { found: TokV, expected: Seq<Seq<char>> },
    UnexpectedEof { expected: Seq<Seq<char>> },
    Custom(Seq<char>),
}

impl View for ExprParseError {
    type V = ExprErrorV;

    open spec fn view(&self) -> ExprErrorV {
        match *self {
            ExprParseError::UnexpectedToken { found, expected } => ExprErrorV::UnexpectedToken {
                found: found@,
                expected: labels(expected@),
            },
            ExprParseError::UnexpectedEof { expected } => ExprErrorV::UnexpectedEof {
                expected: labels(expected@),
            },
            ExprParseError::Custom(s) => ExprErrorV::Custom(s@),
        }
    }
}

/// The text in which an error is shown.
pub open spec fn human_message(e: ExprErrorV) -> Seq<char> {
    match e {
        ExprErrorV::UnexpectedToken { found, expected } => "unexpected token `"@ + tok_shown(found)
            + "`, expected one of: "@ + text::joined(expected, ", "@),
        ExprErrorV::UnexpectedEof { expected } => "unexpected end of expression, expected one of: "@
            + text::joined(expected, ", "@),
        ExprErrorV::Custom(s) => s,
    }
}

fn join_labels(v: &Vec<&'static str>) -> (r: String)
    ensures
        r@ == text::joined(labels(v@), ", "@),
{
    let mut out: Vec<String> = Vec::new();
    let mut i: usize = 0;
    while i < v.len()
        invariant
            i <= v@.len(),
            text::texts(out@) =~= labels(v@).take(i as int),
        decreases v@.len() - i,
    {
        let c = v[i].to_owned();
        proof {
            assert(labels(v@).take(i + 1) =~= labels(v@).take(i as int).push(c@));
            assert(text::texts(out@.push(c)) =~= text::texts(out@).push(c@));
        }
        out.push(c);
        i = i + 1;
    }
    proof {
        assert(labels(v@).take(v@.len() as int) =~= labels(v@));
    }
    text::join(&out, ", ")
}

impl ExprParseError {
    /// The text in which this error is shown.
    pub fn to_human_message(&self) -> (r: String)
        ensures
            r@ == human_message(self@),
    {
        match self {
            ExprParseError::UnexpectedToken { found, expected } => "unexpected token `".to_owned().concat(
                show_tok(found).as_str(),
            ).concat("`, expected one of: ").concat(join_labels(expected).as_str()),
            ExprParseError::UnexpectedEof { expected } => "unexpected end of expression, expected one of: ".to_owned().concat(
                join_labels(expected).as_str(),
            ),
            ExprParseError::Custom(s) => s.clone(),
        }
    }
}

} // verus!
