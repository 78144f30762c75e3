//! The course of one run at the console.
//!
//! A run asks for the name, the total marks and the number of subjects, in
//! that order, and for each of them again and again until a line is typed
//! that can be taken. With the third field the report is ready. The caller
//! does the reading and the printing: it hands each line it has read, or the
//! failure to read one, to `Session::step` and does what the answer says.

use vstd::prelude::*;
use crate::input::{
    InputError, is_whitespace, lemma_trimmed_is_the_core, number_input, read_text, read_u32,
    text_input,
};
use crate::student::{Student, StudentView};

verus! {

/// The line that opens a run.
pub const WELCOME: &'static str = "Welcome to the Student Report Card Generator!";

/// The line that closes a run.
pub const FAREWELL: &'static str = "Thank you for using the Student Report Card Generator!";

/// One of the three things that a run asks for.
#[derive(Clone, Copy, Debug, PartialEq, Eq, Structural)]
pub enum Field {
    Name,
    TotalMarks,
    NumSubjects,
}

impl Field {
    /// The text that asks for the field.
    pub open spec fn prompt_text(self) -> Seq<char> {
        match self {
            Field::Name => "Enter student's name: "@,
            Field::TotalMarks => "Enter total marks: "@,
            Field::NumSubjects => "Enter number of subjects: "@,
        }
    }

    /// The text that asks for the field.
    pub fn prompt(&self) -> (text: &'static str)
        ensures
            text@ == self.prompt_text(),
    {
        match self {
            Field::Name => "Enter student's name: ",
            Field::TotalMarks => "Enter total marks: ",
            Field::NumSubjects => "Enter number of subjects: ",
        }
    }
}

/// What happened at the console.
#[derive(Debug)]
pub enum Event {
    /// A line was read; it may still hold its line terminator.
    Line(String),
    /// No line could be read.
    ReadFailed,
}

/// What the caller is to do next.
#[derive(Debug)]
pub enum Action {
    /// Print the prompt of the field and read a line.
    Ask(Field),
    /// Print the diagnostic of the error, then the prompt of the field, and
    /// read a line.
    Retry(InputError, Field),
    /// Print the report; the run is over.
    Report(String),
    /// Give up: the console cannot be read.
    Abort,
}

/// How far a run has come.
#[derive(Debug)]
pub enum Session {
    /// Nothing is known yet.
    AwaitName,
    /// The name is known.
    AwaitTotalMarks { name: String },
    /// The name and the total marks are known.
    AwaitNumSubjects { name: String, total_marks: u32 },
    /// All is known.
    Done { student: Student },
}

/// An `Event`, as plain values.
pub enum EventView {
    Line(Seq<char>),
    ReadFailed,
}

/// An `Action`, as plain values.
pub enum ActionView {
    Ask(Field),
    Retry(InputError, Field),
    Report(Seq<char>),
    Abort,
}

/// A `Session`, as plain values.
pub enum SessionView {
    AwaitName,
    AwaitTotalMarks { name: Seq<char> },
    AwaitNumSubjects { name: Seq<char>, total_marks: nat },
    Done { student: StudentView },
}

impl View for Event {
    type V = EventView;

    open spec fn view(&self) -> EventView {
        match self {
            Event::Line(line) => EventView::Line(line@),
            Event::ReadFailed => EventView::ReadFailed,
        }
    }
}

impl View for Action {
    type V = ActionView;

    open spec fn view(&self) -> ActionView {
        match self {
            Action::Ask(field) => ActionView::Ask(*field),
            Action::Retry(error, field) => ActionView::Retry(*error, *field),
            Action::Report(report) => ActionView::Report(report@),
            Action::Abort => ActionView::Abort,
        }
    }
}

impl View for Session {
    type V = SessionView;

    open spec fn view(&self) -> SessionView {
        match self {
            Session::AwaitName => SessionView::AwaitName,
            Session::AwaitTotalMarks { name } => SessionView::AwaitTotalMarks { name: name@ },
            Session::AwaitNumSubjects { name, total_marks } => SessionView::AwaitNumSubjects {
                name: name@,
                total_marks: *total_marks as nat,
            },
            Session::Done { student } => SessionView::Done { student: student@ },
        }
    }
}

impl SessionView {
    /// The name that the run holds, once it holds one.
    pub open spec fn name(self) -> Option<Seq<char>> {
        match self {
            SessionView::AwaitName => None,
            SessionView::AwaitTotalMarks { name } => Some(name),
            SessionView::AwaitNumSubjects { name, .. } => Some(name),
            SessionView::Done { student } => Some(student.name),
        }
    }

    /// Whether the name that the run holds, if any, is one that can have
    /// been typed: not empty, and without white space at either end.
    pub open spec fn name_is_sound(self) -> bool {
        match self.name() {
            Some(name) => name.len() > 0 && !is_whitespace(name.first()) && !is_whitespace(
                name.last(),
            ),
            None => true,
        }
    }

    /// The field that the run asks for next, if it still asks for one.
    pub open spec fn awaited(self) -> Option<Field> {
        match self {
            SessionView::AwaitName => Some(Field::Name),
            SessionView::AwaitTotalMarks { .. } => Some(Field::TotalMarks),
            SessionView::AwaitNumSubjects { .. } => Some(Field::NumSubjects),
            SessionView::Done { .. } => None,
        }
    }

    /// The run after a line that was typed for the awaited field, and what
    /// is to be done next. A line that cannot be taken leaves the run where
    /// it was and has the field asked for again; the line that gives the
    /// last field completes the student and brings the report.
    pub open spec fn take_line(self, line: Seq<char>) -> (SessionView, ActionView) {
        match self {
            SessionView::AwaitName => match text_input(line) {
                Ok(name) => (
                    SessionView::AwaitTotalMarks { name },
                    ActionView::Ask(Field::TotalMarks),
                ),
                Err(error) => (self, ActionView::Retry(error, Field::Name)),
            },
            SessionView::AwaitTotalMarks { name } => match number_input(line) {
                Ok(total_marks) => (
                    SessionView::AwaitNumSubjects { name, total_marks: total_marks as nat },
                    ActionView::Ask(Field::NumSubjects),
                ),
                Err(error) => (self, ActionView::Retry(error, Field::TotalMarks)),
            },
            SessionView::AwaitNumSubjects { name, total_marks } => match number_input(line) {
                Ok(num_subjects) => {
                    let student = StudentView {
                        name,
                        total_marks,
                        num_subjects: num_subjects as nat,
                    };
                    (SessionView::Done { student }, ActionView::Report(student.report()))
                },
                Err(error) => (self, ActionView::Retry(error, Field::NumSubjects)),
            },
            SessionView::Done { student } => (self, ActionView::Report(student.report())),
        }
    }

    /// The run after `event`, and what is to be done next. A failure to read
    /// ends every run that still awaits a field.
    pub open spec fn step(self, event: EventView) -> (SessionView, ActionView) {
        match event {
            EventView::Line(line) => self.take_line(line),
            EventView::ReadFailed => match self {
                SessionView::Done { student } => (self, ActionView::Report(student.report())),
                _ => (self, ActionView::Abort),
            },
        }
    }
}

/// A step asks for the field that the run then awaits, and brings the
/// report exactly when the run is done. A line that was refused, and a
/// failure to read, leave the run as it was: a field is asked for until a
/// line is taken for it, however many were refused before.
pub proof fn lemma_step_keeps_the_order(run: SessionView, event: EventView)
    ensures
        ({
            let (next, action) = run.step(event);
            &&& match action {
                ActionView::Ask(field) => next.awaited() == Some(field) && next != run,
                ActionView::Retry(_, field) => next.awaited() == Some(field) && next == run,
                ActionView::Report(report) => next matches SessionView::Done { student }
                    && report == student.report(),
                ActionView::Abort => next == run && event is ReadFailed,
            }
            &&& run is Done ==> next == run
            &&& run is AwaitName ==> !(next is AwaitNumSubjects) && !(next is Done)
            &&& run is AwaitTotalMarks ==> !(next is AwaitName) && !(next is Done)
            &&& run is AwaitNumSubjects ==> !(next is AwaitName) && !(next is AwaitTotalMarks)
        }),
{
}

/// Every run that began at the beginning holds a sound name or none: the
/// beginning holds none, and no step makes a sound name unsound, nor lets go
/// of a name or of the total marks once they were taken.
pub proof fn lemma_step_keeps_what_was_taken(run: SessionView, event: EventView)
    requires
        run.name_is_sound(),
    ensures
        SessionView::AwaitName.name_is_sound(),
        run.step(event).0.name_is_sound(),
        run.name() is Some ==> run.step(event).0.name() == run.name(),
        run matches SessionView::AwaitNumSubjects { total_marks, .. } ==> run.step(event).0
            matches SessionView::Done { student } ==> student.total_marks == total_marks,
{
    if let EventView::Line(line) = event {
        lemma_trimmed_is_the_core(line);
    }
}

impl Session {
    /// A run at its beginning, and the first thing to do in it.
    pub fn start() -> (begin: (Session, Action))
        ensures
            begin.0@ == SessionView::AwaitName,
            begin.1@ == ActionView::Ask(Field::Name),
    {
        (Session::AwaitName, Action::Ask(Field::Name))
    }

    /// The field that the run asks for next, if it still asks for one.
    pub fn awaited(&self) -> (field: Option<Field>)
        ensures
            field == self@.awaited(),
    {
        match self {
            Session::AwaitName => Some(Field::Name),
            Session::AwaitTotalMarks { .. } => Some(Field::TotalMarks),
            Session::AwaitNumSubjects { .. } => Some(Field::NumSubjects),
            Session::Done { .. } => None,
        }
    }

    /// The run after `event`, and what is to be done next.
    pub fn step(self, event: &Event) -> (next: (Session, Action))
        ensures
            (next.0@, next.1@) == self@.step(event@),
    {
        match event {
            Event::ReadFailed => match self {
                Session::Done { student } => {
                    let report = student.report_card();
                    (Session::Done { student }, Action::Report(report))
                },
                _ => (self, Action::Abort),
            },
            Event::Line(line) => match self {
                Session::AwaitName => match read_text(line.as_str()) {
                    Ok(name) => (
                        Session::AwaitTotalMarks { name },
                        Action::Ask(Field::TotalMarks),
                    ),
                    Err(error) => (Session::AwaitName, Action::Retry(error, Field::Name)),
                },
                Session::AwaitTotalMarks { name } => match read_u32(line.as_str()) {
                    Ok(total_marks) => (
                        Session::AwaitNumSubjects { name, total_marks },
                        Action::Ask(Field::NumSubjects),
                    ),
                    Err(error) => (
                        Session::AwaitTotalMarks { name },
                        Action::Retry(error, Field::TotalMarks),
                    ),
                },
                Session::AwaitNumSubjects { name, total_marks } => match read_u32(
                    line.as_str(),
                ) {
                    Ok(num_subjects) => {
                        let student = Student::new(name, total_marks, num_subjects);
                        let report = student.report_card();
                        (Session::Done { student }, Action::Report(report))
                    },
                    Err(error) => (
                        Session::AwaitNumSubjects { name, total_marks },
                        Action::Retry(error, Field::NumSubjects),
                    ),
                },
                Session::Done { student } => {
                    let report = student.report_card();
                    (Session::Done { student }, Action::Report(report))
                },
            },
        }
    }
}

} // verus!
