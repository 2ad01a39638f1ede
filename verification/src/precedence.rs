//! The levels of binding strength that drive the parsing of expressions.
use vstd::prelude::*;
use vstd::std_specs::convert::FromSpecImpl;

verus! {

/// How strongly an operator binds, from `PrecNone`, the weakest, to
/// `PrecPrimary`, the strongest.
#[derive(PartialEq, Eq, Clone, Copy, Debug, Structural)]
pub enum Precedence {
    PrecNone,
    PrecAssignment,
    PrecOr,
    PrecAnd,
    PrecEquality,
    PrecComparison,
    PrecTerm,
    PrecFactor,
    PrecUnary,
    PrecCall,
    PrecPrimary,
}

impl Precedence {
    /// The number of the level: 0 for `PrecNone`, 10 for `PrecPrimary`.
    pub open spec fn level(self) -> int {
        match self {
            Precedence::PrecNone => 0,
            Precedence::PrecAssignment => 1,
            Precedence::PrecOr => 2,
            Precedence::PrecAnd => 3,
            Precedence::PrecEquality => 4,
            Precedence::PrecComparison => 5,
            Precedence::PrecTerm => 6,
            Precedence::PrecFactor => 7,
            Precedence::PrecUnary => 8,
            Precedence::PrecCall => 9,
            Precedence::PrecPrimary => 10,
        }
    }

    /// The level with a number from 0 to 10.
    pub open spec fn of_level(n: int) -> Precedence {
        if n <= 0 {
            Precedence::PrecNone
        } else if n == 1 {
            Precedence::PrecAssignment
        } else if n == 2 {
            Precedence::PrecOr
        } else if n == 3 {
            Precedence::PrecAnd
        } else if n == 4 {
            Precedence::PrecEquality
        } else if n == 5 {
            Precedence::PrecComparison
        } else if n == 6 {
            Precedence::PrecTerm
        } else if n == 7 {
            Precedence::PrecFactor
        } else if n == 8 {
            Precedence::PrecUnary
        } else if n == 9 {
            Precedence::PrecCall
        } else {
            Precedence::PrecPrimary
        }
    }

    /// The next stronger level; `PrecPrimary` has none and is its own.
    pub open spec fn next(self) -> Precedence {
        Precedence::of_level(self.level() + 1)
    }

    /// The next weaker level; `PrecNone` has none and is its own, and so is
    /// `PrecPrimary`.
    pub open spec fn previous(self) -> Precedence {
        if self == Precedence::PrecPrimary {
            Precedence::PrecPrimary
        } else {
            Precedence::of_level(self.level() - 1)
        }
    }

    /// The number of the level.
    pub fn to_level(self) -> (n: usize)
        ensures
            n == self.level(),
            n <= 10,
    {
        match self {
            Precedence::PrecNone => 0,
            Precedence::PrecAssignment => 1,
            Precedence::PrecOr => 2,
            Precedence::PrecAnd => 3,
            Precedence::PrecEquality => 4,
            Precedence::PrecComparison => 5,
            Precedence::PrecTerm => 6,
            Precedence::PrecFactor => 7,
            Precedence::PrecUnary => 8,
            Precedence::PrecCall => 9,
            Precedence::PrecPrimary => 10,
        }
    }

    /// The level with the given number, if the number is at most 10.
    pub fn from_level(n: usize) -> (r: Option<Precedence>)
        ensures
            r is Some <==> n <= 10,
            r is Some ==> r->0 == Precedence::of_level(n as int) && r->0.level() == n,
    {
        match n {
            0 => Some(Precedence::PrecNone),
            1 => Some(Precedence::PrecAssignment),
            2 => Some(Precedence::PrecOr),
            3 => Some(Precedence::PrecAnd),
            4 => Some(Precedence::PrecEquality),
            5 => Some(Precedence::PrecComparison),
            6 => Some(Precedence::PrecTerm),
            7 => Some(Precedence::PrecFactor),
            8 => Some(Precedence::PrecUnary),
            9 => Some(Precedence::PrecCall),
            10 => Some(Precedence::PrecPrimary),
            _ => None,
        }
    }

    pub fn get_next(self) -> (r: Self)
        ensures
            r == self.next(),
    {
        match Precedence::from_level(self.to_level() + 1) {
            Some(p) => p,
            None => Precedence::PrecPrimary,
        }
    }

    pub fn get_previous(self) -> (r: Self)
        ensures
            r == self.previous(),
    {
        let n = self.to_level();
        if n == 10 {
            Precedence::PrecPrimary
        } else if n == 0 {
            Precedence::PrecNone
        } else {
            match Precedence::from_level(n - 1) {
                Some(p) => p,
                None => Precedence::PrecNone,
            }
        }
    }
}

impl From<Precedence> for usize {
    fn from(value: Precedence) -> (n: usize) {
        value.to_level()
    }
}

impl FromSpecImpl<Precedence> for usize {
    open spec fn obeys_from_spec() -> bool {
        true
    }

    open spec fn from_spec(value: Precedence) -> usize {
        value.level() as usize
    }
}

/// The levels are in a total order by their numbers: a level is the one with
/// its number, and the next level of any level but the strongest is one
/// stronger.
pub proof fn lemma_levels(p: Precedence)
    ensures
        0 <= p.level() <= 10,
        Precedence::of_level(p.level()) == p,
        p != Precedence::PrecPrimary ==> p.next().level() == p.level() + 1,
        p.next().level() >= p.level(),
        p.next().level() >= 1,
{
}

} // verus!
