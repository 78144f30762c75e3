//! A verified report card for one student.
//!
//! The library holds what a console front end needs in order to ask for a
//! student's name, total marks and number of subjects, and to print the
//! report: what each typed line is taken for, the order in which the fields
//! are asked for, the average, the letter grade and the text of the report.
//! Reading from the console and writing to it is left to the caller.
//!
//! - `input`: trimming a typed line, and taking it for a text or a number.
//! - `session`: the course of a run, as a function from the state of the
//!   run and what happened at the console to the next state and what to do.
//! - `student`: the student, its average and its grade.
//! - `average`: the average as a floating-point quotient, held in integers.
//! - `grade`: the grades and their bounds.
//! - `text`: numbers and labels as text.
//! - `report`: the text of the report card.

pub mod average;
pub mod grade;
pub mod input;
pub mod report;
pub mod session;
pub mod student;
pub mod text;
