//! The GDScript parser's data: operator precedence and syntax tree nodes.
use vstd::prelude::*;

pub mod node;
pub mod rules;

verus! {

/// Operator precedence levels, from loosest to tightest binding.
#[derive(Debug, Copy, Clone, Eq, PartialEq, Structural, Ord, PartialOrd)]
pub enum Precedence {
    /// Below every operator.
    NoPrecedence,
    Assignment,
    Cast,
    Ternary,
    LogicOr,
    LogicAnd,
    LogicNot,
    ContentTest,
    Comparison,
    BitOr,
    BitXor,
    BitAnd,
    BitShift,
    AdditionSubtraction,
    Factor,
    Sign,
    BitNot,
    Power,
    TypeTest,
    Await,
    Call,
    Attribute,
    Subscript,
    Primary,
}

/// Position of a precedence level, from 0 (loosest) to 23 (tightest); the declaration order.
pub open spec fn precedence_rank(p: Precedence) -> nat {
    match p {
        Precedence::NoPrecedence => 0,
        Precedence::Assignment => 1,
        Precedence::Cast => 2,
        Precedence::Ternary => 3,
        Precedence::LogicOr => 4,
        Precedence::LogicAnd => 5,
        Precedence::LogicNot => 6,
        Precedence::ContentTest => 7,
        Precedence::Comparison => 8,
        Precedence::BitOr => 9,
        Precedence::BitXor => 10,
        Precedence::BitAnd => 11,
        Precedence::BitShift => 12,
        Precedence::AdditionSubtraction => 13,
        Precedence::Factor => 14,
        Precedence::Sign => 15,
        Precedence::BitNot => 16,
        Precedence::Power => 17,
        Precedence::TypeTest => 18,
        Precedence::Await => 19,
        Precedence::Call => 20,
        Precedence::Attribute => 21,
        Precedence::Subscript => 22,
        Precedence::Primary => 23,
    }
}

impl Precedence {
    /// The next tighter precedence level, or `None` for the tightest.
    pub fn next(self) -> (r: Option<Precedence>)
        ensures
            self == Precedence::Primary <==> r is None,
            r matches Some(q) ==> precedence_rank(q) == precedence_rank(self) + 1,
    {
        Some(match self {
            Precedence::NoPrecedence => Precedence::Assignment,
            Precedence::Assignment => Precedence::Cast,
            Precedence::Cast => Precedence::Ternary,
            Precedence::Ternary => Precedence::LogicOr,
            Precedence::LogicOr => Precedence::LogicAnd,
            Precedence::LogicAnd => Precedence::LogicNot,
            Precedence::LogicNot => Precedence::ContentTest,
            Precedence::ContentTest => Precedence::Comparison,
            Precedence::Comparison => Precedence::BitOr,
            Precedence::BitOr => Precedence::BitXor,
            Precedence::BitXor => Precedence::BitAnd,
            Precedence::BitAnd => Precedence::BitShift,
            Precedence::BitShift => Precedence::AdditionSubtraction,
            Precedence::AdditionSubtraction => Precedence::Factor,
            Precedence::Factor => Precedence::Sign,
            Precedence::Sign => Precedence::BitNot,
            Precedence::BitNot => Precedence::Power,
            Precedence::Power => Precedence::TypeTest,
            Precedence::TypeTest => Precedence::Await,
            Precedence::Await => Precedence::Call,
            Precedence::Call => Precedence::Attribute,
            Precedence::Attribute => Precedence::Subscript,
            Precedence::Subscript => Precedence::Primary,
            Precedence::Primary => return None,
        })
    }
}

/// Distinct precedence levels have distinct ranks, so a rank names exactly one level.
pub proof fn law_precedence_rank_injective(p: Precedence, q: Precedence)
    ensures
        precedence_rank(p) == precedence_rank(q) <==> p == q,
{
}

/// Every level but the tightest has a next level, one rank tighter; repeating `next` climbs from
/// the loosest level to the tightest.
pub proof fn law_precedence_next_climbs(p: Precedence)
    ensures
        p != Precedence::Primary ==> precedence_rank(p) < 23,
        p == Precedence::Primary <==> precedence_rank(p) == 23,
        precedence_rank(p) <= 23,
{
}

} // verus!
