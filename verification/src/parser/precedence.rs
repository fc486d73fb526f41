//! The precedence levels and the table of parse rules by token kind.

use vstd::prelude::*;
use crate::parser::parse_func::ParseFunc;
use crate::scanner::tokens::TokenType;

verus! {

/// How tightly an operator binds, from the loosest to the tightest.
#[derive(Clone, Copy, Debug, PartialEq, Eq, Structural)]
pub enum Precedence {
    PrecNone,
    PrecAssignment,
    PrecOr,
    PrecAnd,
    PrecEquality,
    PrecComparison,
    PrecTerm,
    PrecFactor,
    PrecBitOr,
    PrecBitAnd,
    PrecUnary,
    PrecCall,
    PrecPrimary,
    /// Behind the last level, so that every level has a next one.
    PrecEnd,
}

impl Precedence {
    /// The number of the level, from 0 for `PrecNone` to 13 for `PrecEnd`.
    pub open spec fn level(self) -> u8 {
        match self {
            Precedence::PrecNone => 0,
            Precedence::PrecAssignment => 1,
            Precedence::PrecOr => 2,
            Precedence::PrecAnd => 3,
            Precedence::PrecEquality => 4,
            Precedence::PrecComparison => 5,
            Precedence::PrecTerm => 6,
            Precedence::PrecFactor => 7,
            Precedence::PrecBitOr => 8,
            Precedence::PrecBitAnd => 9,
            Precedence::PrecUnary => 10,
            Precedence::PrecCall => 11,
            Precedence::PrecPrimary => 12,
            Precedence::PrecEnd => 13,
        }
    }

    /// The level with the number `value`, if there is one.
    pub open spec fn of_level(value: u8) -> Option<Precedence> {
        if value == 0 {
            Some(Precedence::PrecNone)
        } else if value == 1 {
            Some(Precedence::PrecAssignment)
        } else if value == 2 {
            Some(Precedence::PrecOr)
        } else if value == 3 {
            Some(Precedence::PrecAnd)
        } else if value == 4 {
            Some(Precedence::PrecEquality)
        } else if value == 5 {
            Some(Precedence::PrecComparison)
        } else if value == 6 {
            Some(Precedence::PrecTerm)
        } else if value == 7 {
            Some(Precedence::PrecFactor)
        } else if value == 8 {
            Some(Precedence::PrecBitOr)
        } else if value == 9 {
            Some(Precedence::PrecBitAnd)
        } else if value == 10 {
            Some(Precedence::PrecUnary)
        } else if value == 11 {
            Some(Precedence::PrecCall)
        } else if value == 12 {
            Some(Precedence::PrecPrimary)
        } else if value == 13 {
            Some(Precedence::PrecEnd)
        } else {
            None
        }
    }

    /// The level just above this one; `PrecEnd` is its own.
    pub open spec fn next(self) -> Precedence {
        match Precedence::of_level((self.level() + 1) as u8) {
            Some(above) => above,
            None => Precedence::PrecEnd,
        }
    }

    /// The number of the level.
    pub fn value(self) -> (v: u8)
        ensures
            v == self.level(),
    {
        match self {
            Precedence::PrecNone => 0,
            Precedence::PrecAssignment => 1,
            Precedence::PrecOr => 2,
            Precedence::PrecAnd => 3,
            Precedence::PrecEquality => 4,
            Precedence::PrecComparison => 5,
            Precedence::PrecTerm => 6,
            Precedence::PrecFactor => 7,
            Precedence::PrecBitOr => 8,
            Precedence::PrecBitAnd => 9,
            Precedence::PrecUnary => 10,
            Precedence::PrecCall => 11,
            Precedence::PrecPrimary => 12,
            Precedence::PrecEnd => 13,
        }
    }

    /// The level with the number `value`, if there is one.
    pub fn from_value(value: u8) -> (p: Option<Precedence>)
        ensures
            p == Precedence::of_level(value),
    {
        if value == 0 {
            Some(Precedence::PrecNone)
        } else if value == 1 {
            Some(Precedence::PrecAssignment)
        } else if value == 2 {
            Some(Precedence::PrecOr)
        } else if value == 3 {
            Some(Precedence::PrecAnd)
        } else if value == 4 {
            Some(Precedence::PrecEquality)
        } else if value == 5 {
            Some(Precedence::PrecComparison)
        } else if value == 6 {
            Some(Precedence::PrecTerm)
        } else if value == 7 {
            Some(Precedence::PrecFactor)
        } else if value == 8 {
            Some(Precedence::PrecBitOr)
        } else if value == 9 {
            Some(Precedence::PrecBitAnd)
        } else if value == 10 {
            Some(Precedence::PrecUnary)
        } else if value == 11 {
            Some(Precedence::PrecCall)
        } else if value == 12 {
            Some(Precedence::PrecPrimary)
        } else if value == 13 {
            Some(Precedence::PrecEnd)
        } else {
            None
        }
    }
}

/// Going from a level to its number and back gives the level, and the other
/// way round.
pub proof fn lemma_level_round_trip(p: Precedence, value: u8)
    ensures
        Precedence::of_level(p.level()) == Some(p),
        Precedence::of_level(value) matches Some(q) ==> q.level() == value,
{
}

/// How the parser treats a token kind: what to do when it starts an
/// expression, what to do when it follows a left operand, and how tightly it
/// binds as an operator.
#[derive(Clone, Copy)]
pub struct ParseRule {
    pub prefix: Option<ParseFunc>,
    pub infix: Option<ParseFunc>,
    pub precedence: Precedence,
}

impl ParseRule {
    /// The rule for a token at the start of an expression, if it can start one.
    pub fn get_prefix(&self) -> (f: Option<ParseFunc>)
        ensures
            f == self.prefix,
    {
        self.prefix
    }

    /// The rule for a token behind a left operand, if it can stand there.
    pub fn get_infix(&self) -> (f: Option<ParseFunc>)
        ensures
            f == self.infix,
    {
        self.infix
    }
}

/// The rule of each token kind. A bracket opens a group, an integer is a
/// value, the four arithmetic operators are binary; no other kind starts or
/// continues an expression.
pub open spec fn rule_of(kind: TokenType) -> ParseRule {
    match kind {
        TokenType::LeftParen => ParseRule {
            prefix: Some(ParseFunc::Grouping),
            infix: None,
            precedence: Precedence::PrecCall,
        },
        TokenType::Plus => ParseRule {
            prefix: None,
            infix: Some(ParseFunc::Binary),
            precedence: Precedence::PrecTerm,
        },
        TokenType::Minus => ParseRule {
            prefix: None,
            infix: Some(ParseFunc::Binary),
            precedence: Precedence::PrecTerm,
        },
        TokenType::Star => ParseRule {
            prefix: None,
            infix: Some(ParseFunc::Binary),
            precedence: Precedence::PrecFactor,
        },
        TokenType::Slash => ParseRule {
            prefix: None,
            infix: Some(ParseFunc::Binary),
            precedence: Precedence::PrecFactor,
        },
        TokenType::Integer => ParseRule {
            prefix: Some(ParseFunc::IntNumber),
            infix: None,
            precedence: Precedence::PrecNone,
        },
        _ => ParseRule { prefix: None, infix: None, precedence: Precedence::PrecNone },
    }
}

impl TokenType {
    /// The parse rule of this kind.
    pub fn get_rule(&self) -> (rule: ParseRule)
        ensures
            rule == rule_of(*self),
    {
        match self {
            TokenType::LeftParen => ParseRule {
                prefix: Some(ParseFunc::Grouping),
                infix: None,
                precedence: Precedence::PrecCall,
            },
            TokenType::Plus => ParseRule {
                prefix: None,
                infix: Some(ParseFunc::Binary),
                precedence: Precedence::PrecTerm,
            },
            TokenType::Minus => ParseRule {
                prefix: None,
                infix: Some(ParseFunc::Binary),
                precedence: Precedence::PrecTerm,
            },
            TokenType::Star => ParseRule {
                prefix: None,
                infix: Some(ParseFunc::Binary),
                precedence: Precedence::PrecFactor,
            },
            TokenType::Slash => ParseRule {
                prefix: None,
                infix: Some(ParseFunc::Binary),
                precedence: Precedence::PrecFactor,
            },
            TokenType::Integer => ParseRule {
                prefix: Some(ParseFunc::IntNumber),
                infix: None,
                precedence: Precedence::PrecNone,
            },
            _ => ParseRule { prefix: None, infix: None, precedence: Precedence::PrecNone },
        }
    }
}

} // verus!
