//! The letter grades.

use vstd::prelude::*;
use crate::average::{Dyadic, average_of, lemma_at_least_is_exact};

verus! {

/// The least average that earns an A.
pub const A_FROM: u32 = 90;

/// The least average that earns a B.
pub const B_FROM: u32 = 75;

/// The least average that earns a C.
pub const C_FROM: u32 = 60;

/// The grade of a student. `Invalid` is the grade of a student without
/// subjects, for whom no average can be formed.
#[derive(Clone, Copy, Debug, PartialEq, Eq, Structural)]
pub enum Grade {
    A,
    B,
    C,
    D,
    Invalid,
}

impl Grade {
    /// The text under which a grade appears in a report.
    pub open spec fn label(self) -> Seq<char> {
        match self {
            Grade::A => seq!['A'],
            Grade::B => seq!['B'],
            Grade::C => seq!['C'],
            Grade::D => seq!['D'],
            Grade::Invalid => seq!['N', '/', 'A'],
        }
    }

    /// The grade for an average that was formed over `subjects` subjects:
    /// `Invalid` without subjects, whatever the average; else the highest
    /// grade whose lower bound the average reaches.
    pub open spec fn for_average(average: Dyadic, subjects: nat) -> Grade {
        if subjects == 0 {
            Grade::Invalid
        } else if average.at_least(A_FROM as nat) {
            Grade::A
        } else if average.at_least(B_FROM as nat) {
            Grade::B
        } else if average.at_least(C_FROM as nat) {
            Grade::C
        } else {
            Grade::D
        }
    }

    /// The grade for `total` marks over `subjects` subjects, by the exact
    /// quotient of the two.
    pub open spec fn for_marks(total: nat, subjects: nat) -> Grade {
        if subjects == 0 {
            Grade::Invalid
        } else if total >= A_FROM * subjects {
            Grade::A
        } else if total >= B_FROM * subjects {
            Grade::B
        } else if total >= C_FROM * subjects {
            Grade::C
        } else {
            Grade::D
        }
    }

    /// The display label of the grade: the letter itself, and `N/A` for
    /// `Invalid`.
    pub fn as_str(&self) -> (text: &str)
        ensures
            text@ == self.label(),
    {
        proof {
            reveal_strlit("A");
            reveal_strlit("B");
            reveal_strlit("C");
            reveal_strlit("D");
            reveal_strlit("N/A");
        }
        match self {
            Grade::A => "A",
            Grade::B => "B",
            Grade::C => "C",
            Grade::D => "D",
            Grade::Invalid => "N/A",
        }
    }
}

/// Each grade begins exactly at its bound: the grade for the rounded average
/// is the grade for the exact quotient, so that an average of exactly 90, 75
/// or 60 belongs to the higher grade and any average below to the lower.
pub proof fn lemma_grade_bounds_are_exact(total: nat, subjects: nat)
    requires
        subjects <= u32::MAX,
    ensures
        Grade::for_average(average_of(total, subjects), subjects) == Grade::for_marks(
            total,
            subjects,
        ),
{
    if subjects > 0 {
        lemma_at_least_is_exact(total, subjects, A_FROM as nat);
        lemma_at_least_is_exact(total, subjects, B_FROM as nat);
        lemma_at_least_is_exact(total, subjects, C_FROM as nat);
    }
}

} // verus!
