//! The student and what is derived from one.

use vstd::prelude::*;
use crate::average::{Average, Dyadic, average_of};
use crate::grade::{Grade, A_FROM, B_FROM, C_FROM, lemma_grade_bounds_are_exact};

verus! {

/// A student as entered: a name, the sum of the marks over all subjects and
/// the number of subjects. The two counts are independent of each other.
#[derive(Debug)]
pub struct Student {
    pub name: String,
    pub total_marks: u32,
    pub num_subjects: u32,
}

/// What a `Student` holds, as plain values.
pub struct StudentView {
    pub name: Seq<char>,
    pub total_marks: nat,
    pub num_subjects: nat,
}

impl View for Student {
    type V = StudentView;

    open spec fn view(&self) -> StudentView {
        StudentView {
            name: self.name@,
            total_marks: self.total_marks as nat,
            num_subjects: self.num_subjects as nat,
        }
    }
}

impl Student {
    /// A student with the given name and counts.
    pub fn new(name: String, total_marks: u32, num_subjects: u32) -> (student: Student)
        ensures
            student.name == name,
            student.total_marks == total_marks,
            student.num_subjects == num_subjects,
    {
        Student { name, total_marks, num_subjects }
    }

    /// The average mark per subject, and zero for a student without
    /// subjects.
    pub fn calculate_average(&self) -> (average: Average)
        ensures
            average@ == average_of(self@.total_marks, self@.num_subjects),
            self.num_subjects == 0 ==> average@ == Dyadic::zero(),
    {
        Average::of(self.total_marks, self.num_subjects)
    }

    /// The grade of the student: `Invalid` without subjects, else by the
    /// average, each grade beginning at its bound.
    pub fn assign_grade(&self) -> (grade: Grade)
        ensures
            grade == Grade::for_average(
                average_of(self@.total_marks, self@.num_subjects),
                self@.num_subjects,
            ),
            grade == Grade::for_marks(self@.total_marks, self@.num_subjects),
            self.num_subjects == 0 ==> grade == Grade::Invalid,
    {
        let average = self.calculate_average();
        proof {
            lemma_grade_bounds_are_exact(self@.total_marks, self@.num_subjects);
        }
        if self.num_subjects == 0 {
            Grade::Invalid
        } else if average.at_least(A_FROM) {
            Grade::A
        } else if average.at_least(B_FROM) {
            Grade::B
        } else if average.at_least(C_FROM) {
            Grade::C
        } else {
            Grade::D
        }
    }
}

} // verus!
