//! The text of the report card.

use vstd::prelude::*;
use vstd::string::StringExecFns;
use crate::average::average_of;
use crate::grade::Grade;
use crate::student::{Student, StudentView};
use crate::text::{decimal, padded, push_decimal, push_padded, push_two_places, two_places};

verus! {

/// The width of the field in which each line of the report holds its label.
pub const LABEL_WIDTH: usize = 15;

/// One line of the report: the label at the left of its field, a colon, a
/// space, the value and a line feed.
pub open spec fn report_line(label: Seq<char>, value: Seq<char>) -> Seq<char> {
    padded(label, LABEL_WIDTH as nat) + ": "@ + value + "\n"@
}

impl StudentView {
    /// The average of the student in hundredths.
    pub open spec fn hundredths(self) -> nat {
        average_of(self.total_marks, self.num_subjects).hundredths()
    }

    /// The grade of the student.
    pub open spec fn grade(self) -> Grade {
        Grade::for_marks(self.total_marks, self.num_subjects)
    }

    /// The report card: an empty line and the header; the name, the total
    /// marks, the number of subjects, the average with two decimal places
    /// and the label of the grade, each on a line of its own; the footer and
    /// an empty line.
    pub open spec fn report(self) -> Seq<char> {
        "\n--- Student Report Card ---\n"@ + report_line("Name"@, self.name) + report_line(
            "Total Marks"@,
            decimal(self.total_marks),
        ) + report_line("No. Subjects"@, decimal(self.num_subjects)) + report_line(
            "Average Marks"@,
            two_places(self.hundredths()),
        ) + report_line("Grade"@, self.grade().label()) + "---------------------------\n\n"@
    }
}

/// Appends the beginning of a report line to `out`: the label in its field,
/// the colon and the space.
fn push_label(out: &mut String, label: &str)
    ensures
        final(out)@ == old(out)@ + padded(label@, LABEL_WIDTH as nat) + ": "@,
{
    push_padded(out, label, LABEL_WIDTH);
    out.append(": ");
}

impl Student {
    /// The report card of the student, as the text to print.
    pub fn report_card(&self) -> (report: String)
        ensures
            report@ == self@.report(),
    {
        let average = self.calculate_average();
        let grade = self.assign_grade();
        let mut out = String::new();
        out.append("\n--- Student Report Card ---\n");
        push_label(&mut out, "Name");
        out.append(self.name.as_str());
        out.append("\n");
        push_label(&mut out, "Total Marks");
        push_decimal(&mut out, self.total_marks as u64);
        out.append("\n");
        push_label(&mut out, "No. Subjects");
        push_decimal(&mut out, self.num_subjects as u64);
        out.append("\n");
        push_label(&mut out, "Average Marks");
        push_two_places(&mut out, average.hundredths());
        out.append("\n");
        push_label(&mut out, "Grade");
        out.append(grade.as_str());
        out.append("\n");
        out.append("---------------------------\n\n");
        out
    }
}

} // verus!
