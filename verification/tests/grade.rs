use student_report::grade::{Grade, A_FROM, B_FROM, C_FROM};
use student_report::student::Student;

fn grade(total_marks: u32, num_subjects: u32) -> Grade {
    Student::new(String::from("x"), total_marks, num_subjects).assign_grade()
}

fn grade_by_floats(total_marks: u32, num_subjects: u32) -> Grade {
    let average = if num_subjects == 0 {
        0.0
    } else {
        total_marks as f64 / num_subjects as f64
    };
    if num_subjects == 0 {
        Grade::Invalid
    } else if average >= 90.0 {
        Grade::A
    } else if average >= 75.0 {
        Grade::B
    } else if average >= 60.0 {
        Grade::C
    } else {
        Grade::D
    }
}

#[test]
fn grade_labels() {
    assert_eq!(Grade::A.as_str(), "A");
    assert_eq!(Grade::B.as_str(), "B");
    assert_eq!(Grade::C.as_str(), "C");
    assert_eq!(Grade::D.as_str(), "D");
    assert_eq!(Grade::Invalid.as_str(), "N/A");
}

#[test]
fn grade_bounds() {
    assert_eq!(A_FROM, 90);
    assert_eq!(B_FROM, 75);
    assert_eq!(C_FROM, 60);
}

#[test]
fn no_subjects_no_grade() {
    for total in [0u32, 1, 90, 270, u32::MAX] {
        assert_eq!(grade(total, 0), Grade::Invalid);
    }
}

#[test]
fn bounds_belong_to_the_higher_grade() {
    assert_eq!(grade(90, 1), Grade::A);
    assert_eq!(grade(270, 3), Grade::A);
    assert_eq!(grade(75, 1), Grade::B);
    assert_eq!(grade(225, 3), Grade::B);
    assert_eq!(grade(60, 1), Grade::C);
    assert_eq!(grade(180, 3), Grade::C);
}

#[test]
fn just_below_a_bound() {
    assert_eq!(grade(89999, 1000), Grade::B);
    assert_eq!(grade(74999, 1000), Grade::C);
    assert_eq!(grade(59999, 1000), Grade::D);
    assert_eq!(grade(269, 3), Grade::B);
    assert_eq!(grade(224, 3), Grade::C);
    assert_eq!(grade(179, 3), Grade::D);
    assert_eq!(grade(90 * 47721858 - 1, 47721858), Grade::B);
    assert_eq!(grade(90 * 47721858, 47721858), Grade::A);
    assert_eq!(grade(60 * 71582788 - 1, 71582788), Grade::D);
    assert_eq!(grade(60 * 71582788, 71582788), Grade::C);
}

#[test]
fn far_from_the_bounds() {
    assert_eq!(grade(0, 1), Grade::D);
    assert_eq!(grade(0, u32::MAX), Grade::D);
    assert_eq!(grade(u32::MAX, 1), Grade::A);
    assert_eq!(grade(u32::MAX, u32::MAX), Grade::D);
    assert_eq!(grade(100, 1), Grade::A);
    assert_eq!(grade(80, 1), Grade::B);
    assert_eq!(grade(70, 1), Grade::C);
    assert_eq!(grade(10, 1), Grade::D);
}

#[test]
fn grade_is_that_of_the_floating_point_average() {
    for subjects in 0u32..=60 {
        for total in 0u32..=6000 {
            assert_eq!(grade(total, subjects), grade_by_floats(total, subjects));
        }
    }
    for subjects in [47721858u32, 47721857, 57266230, 71582788, 1000000, 33333333] {
        for bound in [60u64, 75, 90] {
            for offset in -3i64..=3 {
                let total = (bound * subjects as u64) as i64 + offset;
                if total >= 0 && total <= u32::MAX as i64 {
                    let total = total as u32;
                    assert_eq!(grade(total, subjects), grade_by_floats(total, subjects));
                }
            }
        }
    }
}
