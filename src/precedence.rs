//! The precedence relation between operators.
use vstd::prelude::*;

verus! {

/// The infix operators that the parser knows.
#[derive(Clone, Copy, Debug, PartialEq, Eq, Structural)]
pub enum Operator {
    Add,
    Multiply,
    BitwiseOr,
}

/// How two adjacent operators group.
#[derive(Clone, Copy, Debug, PartialEq, Eq, Structural)]
pub enum Precedence {
    /// The left operator takes the operand between them.
    LeftBindsTighter,
    /// The right operator takes the operand between them.
    RightBindsTighter,
    /// The two operators cannot be combined without explicit grouping.
    Ambiguous,
}

/// The precedence table, with the left operator in `left` and the right one in `right`.
///
/// Multiply binds tighter than Add; both are left-associative; BitwiseOr is
/// right-associative and incomparable with the other two.
pub open spec fn precedence_of(left: Operator, right: Operator) -> Precedence {
    match (left, right) {
        (Operator::Add, Operator::Add) => Precedence::LeftBindsTighter,
        (Operator::Add, Operator::Multiply) => Precedence::RightBindsTighter,
        (Operator::Add, Operator::BitwiseOr) => Precedence::Ambiguous,
        (Operator::Multiply, Operator::Add) => Precedence::LeftBindsTighter,
        (Operator::Multiply, Operator::Multiply) => Precedence::LeftBindsTighter,
        (Operator::Multiply, Operator::BitwiseOr) => Precedence::Ambiguous,
        (Operator::BitwiseOr, Operator::Add) => Precedence::Ambiguous,
        (Operator::BitwiseOr, Operator::Multiply) => Precedence::Ambiguous,
        (Operator::BitwiseOr, Operator::BitwiseOr) => Precedence::RightBindsTighter,
    }
}

/// Compares the operator on the left of an operand with the one on its right.
pub fn compare_precedence(left: &Operator, right: &Operator) -> (r: Precedence)
    ensures
        r == precedence_of(*left, *right),
{
    match left {
        Operator::Add => match right {
            Operator::Add => Precedence::LeftBindsTighter,
            Operator::Multiply => Precedence::RightBindsTighter,
            Operator::BitwiseOr => Precedence::Ambiguous,
        },
        Operator::Multiply => match right {
            Operator::Add => Precedence::LeftBindsTighter,
            Operator::Multiply => Precedence::LeftBindsTighter,
            Operator::BitwiseOr => Precedence::Ambiguous,
        },
        Operator::BitwiseOr => match right {
            Operator::Add => Precedence::Ambiguous,
            Operator::Multiply => Precedence::Ambiguous,
            Operator::BitwiseOr => Precedence::RightBindsTighter,
        },
    }
}

/// Ambiguity is symmetric: `a` and `b` are incomparable exactly when `b` and
/// `a` are.
pub proof fn lemma_ambiguity_symmetric(a: Operator, b: Operator)
    ensures
        precedence_of(a, b) == Precedence::Ambiguous <==> precedence_of(b, a)
            == Precedence::Ambiguous,
{
}

/// Outside ambiguity the relation is anti-symmetric: for distinct operators,
/// `a` binds tighter on the left of `b` exactly when `a` binds tighter on the
/// right of `b`.
pub proof fn lemma_anti_symmetric(a: Operator, b: Operator)
    requires
        a != b,
    ensures
        precedence_of(a, b) == Precedence::LeftBindsTighter <==> precedence_of(b, a)
            == Precedence::RightBindsTighter,
        precedence_of(a, b) == Precedence::RightBindsTighter <==> precedence_of(b, a)
            == Precedence::LeftBindsTighter,
{
}

/// A chain of two links of the same non-ambiguous kind gives a link of that
/// kind between its ends.
pub proof fn lemma_transitive(a: Operator, b: Operator, c: Operator, p: Precedence)
    requires
        p != Precedence::Ambiguous,
        precedence_of(a, b) == p,
        precedence_of(b, c) == p,
    ensures
        precedence_of(a, c) == p,
{
}

/// No operator is ambiguous with itself: comparing an operator with itself
/// gives its associativity.
pub proof fn lemma_never_ambiguous_with_itself(a: Operator)
    ensures
        precedence_of(a, a) != Precedence::Ambiguous,
{
}

} // verus!
