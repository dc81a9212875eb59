//! Precedence climbing over a sequence of tokens.
use vstd::prelude::*;
use vstd::slice::slice_to_vec;

use crate::precedence::{compare_precedence, precedence_of, Operator, Precedence};

verus! {

/// A lexical unit handed to the parser.
#[derive(Clone, Copy, Debug, PartialEq, Eq, Structural)]
pub enum Token {
    Number,
    Add,
    Multiply,
    BitwiseOr,
    OpenParen,
    CloseParen,
}

/// An operator node: `left op right`.
#[derive(Debug)]
pub struct BinaryOp {
    pub op: Operator,
    pub left: Box<Expr>,
    pub right: Box<Expr>,
}

/// An expression tree.
#[derive(Debug)]
pub enum Expr {
    Number,
    BinaryOp(BinaryOp),
}

/// Why a token sequence was rejected.
#[derive(Clone, Copy, Debug, PartialEq, Eq, Structural)]
pub enum ParseError {
    /// A number or an open parenthesis was expected, and another token, or
    /// the end of the input, came.
    UnexpectedToken,
    /// An open parenthesis was not matched by a close parenthesis.
    UnclosedGroup,
    /// Two operators that the precedence relation does not order met.
    AmbiguousPrecedence,
    /// A complete expression was read before the end of the input.
    TrailingInput,
}

/// The operator that a token stands for, if any.
pub open spec fn operator_of(t: Token) -> Option<Operator> {
    match t {
        Token::Add => Some(Operator::Add),
        Token::Multiply => Some(Operator::Multiply),
        Token::BitwiseOr => Some(Operator::BitwiseOr),
        _ => None,
    }
}

/// How `op` groups against the operator whose right operand is being read;
/// at the top level every operator descends.
pub open spec fn binding(enclosing: Option<Operator>, op: Operator) -> Precedence {
    match enclosing {
        Some(e) => precedence_of(e, op),
        None => Precedence::RightBindsTighter,
    }
}

/// The tree `left op right`.
pub open spec fn binary(op: Operator, left: Expr, right: Expr) -> Expr {
    Expr::BinaryOp(BinaryOp { op, left: Box::new(left), right: Box::new(right) })
}

/// The outcome of reading a phrase at some position: the tree read and the
/// position after it, or the reason for failing.
pub type Step = Result<(Expr, nat), ParseError>;

/// Reads an operand at `pos`: a number, or a parenthesised expression.
pub open spec fn atom_at(toks: Seq<Token>, pos: nat) -> Step
    decreases toks.len() - pos, 1nat,
{
    if pos >= toks.len() {
        Err(ParseError::UnexpectedToken)
    } else {
        match toks[pos as int] {
            Token::Number => Ok((Expr::Number, pos + 1)),
            Token::OpenParen => match expr_at(toks, pos + 1, None) {
                Err(e) => Err(e),
                Ok((inner, q)) => if q < toks.len() && toks[q as int] == Token::CloseParen {
                    Ok((inner, q + 1))
                } else {
                    Err(ParseError::UnclosedGroup)
                },
            },
            _ => Err(ParseError::UnexpectedToken),
        }
    }
}

/// Reads, at `pos`, the longest expression that may stand as the right
/// operand of `enclosing` (any expression where `enclosing` is `None`).
pub open spec fn expr_at(toks: Seq<Token>, pos: nat, enclosing: Option<Operator>) -> Step
    decreases toks.len() - pos, 2nat,
{
    match atom_at(toks, pos) {
        Err(e) => Err(e),
        // Positions only move forward (`lemma_steps_advance`); the guard shows
        // it to the termination check.
        Ok((left, p)) => if pos <= p <= toks.len() {
            continue_at(toks, p, enclosing, left)
        } else {
            Err(ParseError::UnexpectedToken)
        },
    }
}

/// Having read `left` up to `pos`, extends it with the operators that bind
/// tighter than `enclosing`.
pub open spec fn continue_at(
    toks: Seq<Token>,
    pos: nat,
    enclosing: Option<Operator>,
    left: Expr,
) -> Step
    decreases toks.len() - pos, 0nat,
{
    if pos >= toks.len() {
        Ok((left, pos))
    } else {
        match operator_of(toks[pos as int]) {
            None => Ok((left, pos)),
            Some(op) => match binding(enclosing, op) {
                Precedence::LeftBindsTighter => Ok((left, pos)),
                Precedence::Ambiguous => Err(ParseError::AmbiguousPrecedence),
                Precedence::RightBindsTighter => match expr_at(toks, pos + 1, Some(op)) {
                    Err(e) => Err(e),
                    Ok((right, q)) => if pos < q <= toks.len() {
                        continue_at(toks, q, enclosing, binary(op, left, right))
                    } else {
                        Err(ParseError::UnexpectedToken)
                    },
                },
            },
        }
    }
}

/// The result of parsing a whole token sequence.
pub open spec fn parse_of(toks: Seq<Token>) -> Result<Expr, ParseError> {
    match expr_at(toks, 0, None) {
        Err(e) => Err(e),
        Ok((e, q)) => if q == toks.len() {
            Ok(e)
        } else {
            Err(ParseError::TrailingInput)
        },
    }
}

/// Every successful step ends after the position it started at, and within
/// the input; an operand is never empty.
pub proof fn lemma_steps_advance(
    toks: Seq<Token>,
    pos: nat,
    enclosing: Option<Operator>,
    left: Expr,
)
    ensures
        atom_at(toks, pos) matches Ok((_, q)) ==> pos < q <= toks.len(),
        expr_at(toks, pos, enclosing) matches Ok((_, q)) ==> pos < q <= toks.len(),
        pos <= toks.len() ==> (continue_at(toks, pos, enclosing, left) matches Ok((_, q))
            ==> pos <= q <= toks.len()),
    decreases toks.len() - pos,
{
    if pos < toks.len() {
        lemma_steps_advance(toks, pos + 1, None, left);
        if let Ok((a, p)) = atom_at(toks, pos) {
            lemma_steps_advance(toks, p, enclosing, a);
        }
        if let Some(op) = operator_of(toks[pos as int]) {
            lemma_steps_advance(toks, pos + 1, Some(op), left);
            if let Ok((right, q)) = expr_at(toks, pos + 1, Some(op)) {
                lemma_steps_advance(toks, q, enclosing, binary(op, left, right));
            }
        }
    }
}

/// A successful step reads the same way when more tokens follow the input,
/// so long as the first of them is no operator.
pub proof fn lemma_steps_extend(
    toks: Seq<Token>,
    rest: Seq<Token>,
    pos: nat,
    enclosing: Option<Operator>,
    left: Expr,
)
    requires
        rest.len() > 0,
        operator_of(rest[0]) is None,
    ensures
        atom_at(toks, pos) is Ok ==> atom_at(toks + rest, pos) == atom_at(toks, pos),
        expr_at(toks, pos, enclosing) is Ok ==> expr_at(toks + rest, pos, enclosing) == expr_at(
            toks,
            pos,
            enclosing,
        ),
        pos <= toks.len() ==> (continue_at(toks, pos, enclosing, left) is Ok ==> continue_at(
            toks + rest,
            pos,
            enclosing,
            left,
        ) == continue_at(toks, pos, enclosing, left)),
    decreases toks.len() - pos,
{
    let all = toks + rest;
    if pos == toks.len() {
        assert(all[pos as int] == rest[0]);
    }
    if pos < toks.len() {
        assert(all[pos as int] == toks[pos as int]);
        lemma_steps_advance(toks, pos + 1, None, left);
        lemma_steps_extend(toks, rest, pos + 1, None, left);
        if let Ok((_, q)) = expr_at(toks, pos + 1, None) {
            if q < toks.len() {
                assert(all[q as int] == toks[q as int]);
            }
        }
        lemma_steps_advance(toks, pos, enclosing, left);
        if let Ok((a, p)) = atom_at(toks, pos) {
            lemma_steps_extend(toks, rest, p, enclosing, a);
        }
        if let Some(op) = operator_of(toks[pos as int]) {
            lemma_steps_advance(toks, pos + 1, Some(op), left);
            lemma_steps_extend(toks, rest, pos + 1, Some(op), left);
            if let Ok((right, q)) = expr_at(toks, pos + 1, Some(op)) {
                lemma_steps_extend(toks, rest, q, enclosing, binary(op, left, right));
            }
        }
    }
}

/// Parsing consumes the whole input: where `toks` parses, `toks` followed by
/// further tokens that do not start with an operator is rejected as trailing
/// input, never cut short.
pub proof fn lemma_trailing_input_rejected(toks: Seq<Token>, rest: Seq<Token>)
    requires
        parse_of(toks) is Ok,
        rest.len() > 0,
        operator_of(rest[0]) is None,
    ensures
        parse_of(toks + rest) == Err::<Expr, ParseError>(ParseError::TrailingInput),
{
    lemma_steps_extend(toks, rest, 0, None, Expr::Number);
}

impl ParseError {
    /// A sentence that describes the error.
    pub fn message(&self) -> (r: &'static str)
        ensures
            r@ == match *self {
                ParseError::UnexpectedToken => "Expected number or open paren"@,
                ParseError::UnclosedGroup => "Expected close paren"@,
                ParseError::AmbiguousPrecedence => "Ambiguous operator precedence"@,
                ParseError::TrailingInput => "Expected end of expression"@,
            },
    {
        match self {
            ParseError::UnexpectedToken => "Expected number or open paren",
            ParseError::UnclosedGroup => "Expected close paren",
            ParseError::AmbiguousPrecedence => "Ambiguous operator precedence",
            ParseError::TrailingInput => "Expected end of expression",
        }
    }
}

/// Structural equality of two trees.
fn expr_eq(a: &Expr, b: &Expr) -> (r: bool)
    ensures
        r == (*a == *b),
    decreases a,
{
    match a {
        Expr::Number => match b {
            Expr::Number => true,
            Expr::BinaryOp(_) => false,
        },
        Expr::BinaryOp(x) => match b {
            Expr::Number => false,
            Expr::BinaryOp(y) => x.op == y.op && expr_eq(&x.left, &y.left) && expr_eq(
                &x.right,
                &y.right,
            ),
        },
    }
}

/// A copy of a tree, node by node.
fn expr_copy(e: &Expr) -> (r: Expr)
    ensures
        r == *e,
    decreases e,
{
    match e {
        Expr::Number => Expr::Number,
        Expr::BinaryOp(b) => Expr::BinaryOp(
            BinaryOp {
                op: b.op,
                left: Box::new(expr_copy(&b.left)),
                right: Box::new(expr_copy(&b.right)),
            },
        ),
    }
}

impl Clone for Expr {
    fn clone(&self) -> (r: Expr)
        ensures
            r == *self,
    {
        expr_copy(self)
    }
}

impl Clone for BinaryOp {
    fn clone(&self) -> (r: BinaryOp)
        ensures
            r == *self,
    {
        BinaryOp {
            op: self.op,
            left: Box::new(expr_copy(&self.left)),
            right: Box::new(expr_copy(&self.right)),
        }
    }
}

impl PartialEq for Expr {
    fn eq(&self, other: &Expr) -> (r: bool) {
        expr_eq(self, other)
    }
}

impl vstd::std_specs::cmp::PartialEqSpecImpl for Expr {
    open spec fn obeys_eq_spec() -> bool {
        true
    }

    open spec fn eq_spec(&self, other: &Expr) -> bool {
        *self == *other
    }
}

/// A cursor over a token sequence.
#[derive(Clone, Debug)]
pub struct Parser {
    pub tokens: Vec<Token>,
    pub position: usize,
}

impl Parser {
    /// A parser at the start of a copy of `tokens`.
    pub fn new(tokens: &[Token]) -> (r: Parser)
        ensures
            r.tokens@ == tokens@,
            r.position == 0,
    {
        Parser { tokens: slice_to_vec(tokens), position: 0 }
    }

    /// Takes the token under the cursor, if any, and moves past it.
    pub fn next_token(&mut self) -> (r: Option<Token>)
        ensures
            final(self).tokens@ == old(self).tokens@,
            old(self).position < old(self).tokens@.len() ==> r == Some(
                old(self).tokens@[old(self).position as int],
            ) && final(self).position == old(self).position + 1,
            old(self).position >= old(self).tokens@.len() ==> r is None && final(self).position
                == old(self).position,
    {
        if self.position >= self.tokens.len() {
            return None;
        }
        let token = self.tokens[self.position];
        self.position = self.position + 1;
        Some(token)
    }

    /// Reads an operand: a number, or an expression in parentheses.
    pub fn parse_expr_inner(&mut self) -> (r: Result<Expr, ParseError>)
        ensures
            final(self).tokens@ == old(self).tokens@,
            match atom_at(old(self).tokens@, old(self).position as nat) {
                Ok((e, q)) => r == Ok::<Expr, ParseError>(e) && final(self).position == q,
                Err(err) => r == Err::<Expr, ParseError>(err),
            },
        decreases old(self).tokens@.len() - old(self).position, 1nat,
    {
        match self.next_token() {
            Some(Token::Number) => Ok(Expr::Number),
            Some(Token::OpenParen) => {
                let inner = match self.parse_expr_outer(None) {
                    Ok(e) => e,
                    Err(e) => return Err(e),
                };
                match self.next_token() {
                    Some(Token::CloseParen) => Ok(inner),
                    _ => Err(ParseError::UnclosedGroup),
                }
            },
            _ => Err(ParseError::UnexpectedToken),
        }
    }

    /// Reads the longest expression that may stand as the right operand of
    /// `enclosing`, and leaves the cursor on the first token it did not use.
    pub fn parse_expr_outer(&mut self, enclosing: Option<Operator>) -> (r: Result<Expr, ParseError>)
        ensures
            final(self).tokens@ == old(self).tokens@,
            match expr_at(old(self).tokens@, old(self).position as nat, enclosing) {
                Ok((e, q)) => r == Ok::<Expr, ParseError>(e) && final(self).position == q,
                Err(err) => r == Err::<Expr, ParseError>(err),
            },
        decreases old(self).tokens@.len() - old(self).position, 2nat,
    {
        let ghost toks = self.tokens@;
        let ghost start = self.position as nat;
        let mut left = match self.parse_expr_inner() {
            Ok(e) => e,
            Err(e) => return Err(e),
        };
        proof {
            lemma_steps_advance(toks, start, enclosing, left);
        }
        loop
            invariant
                toks == old(self).tokens@,
                start == old(self).position,
                self.tokens@ == toks,
                start < self.position <= toks.len(),
                continue_at(toks, self.position as nat, enclosing, left) == expr_at(
                    toks,
                    start,
                    enclosing,
                ),
            decreases toks.len() - self.position,
        {
            let here = self.position;
            let op = match self.next_token() {
                Some(Token::Add) => Operator::Add,
                Some(Token::Multiply) => Operator::Multiply,
                Some(Token::BitwiseOr) => Operator::BitwiseOr,
                _ => {
                    self.position = here;
                    return Ok(left);
                },
            };
            let precedence = match enclosing {
                Some(e) => compare_precedence(&e, &op),
                None => Precedence::RightBindsTighter,
            };
            match precedence {
                Precedence::LeftBindsTighter => {
                    self.position = here;
                    return Ok(left);
                },
                Precedence::Ambiguous => {
                    return Err(ParseError::AmbiguousPrecedence);
                },
                Precedence::RightBindsTighter => {
                    let right = match self.parse_expr_outer(Some(op)) {
                        Ok(e) => e,
                        Err(e) => return Err(e),
                    };
                    proof {
                        lemma_steps_advance(toks, (here + 1) as nat, Some(op), left);
                    }
                    left = Expr::BinaryOp(
                        BinaryOp { op, left: Box::new(left), right: Box::new(right) },
                    );
                },
            }
        }
    }

    /// Parses a whole token sequence into one expression.
    pub fn parse(tokens: &[Token]) -> (r: Result<Expr, ParseError>)
        ensures
            r == parse_of(tokens@),
    {
        let mut parser = Parser::new(tokens);
        let expr = match parser.parse_expr_outer(None) {
            Ok(e) => e,
            Err(e) => return Err(e),
        };
        if parser.position != parser.tokens.len() {
            return Err(ParseError::TrailingInput);
        }
        Ok(expr)
    }
}

} // verus!
