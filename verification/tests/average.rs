use student_report::average::Average;
use student_report::student::Student;

fn float_of(average: &Average) -> f64 {
    average.significand() as f64 / average.scale() as f64
}

fn next_random(state: &mut u64) -> u32 {
    *state = state
        .wrapping_mul(6364136223846793005)
        .wrapping_add(1442695040888963407);
    (*state >> 32) as u32
}

#[test]
fn average_of_ada() {
    let average = Average::of(270, 3);
    assert_eq!(float_of(&average), 90.0);
    assert_eq!(average.hundredths(), 9000);
    assert_eq!(average.to_text(), "90.00");
}

#[test]
fn average_without_subjects_is_zero() {
    for total in [0u32, 1, 270, u32::MAX] {
        let average = Average::of(total, 0);
        assert_eq!(average.significand(), 0);
        assert_eq!(average.scale(), 1);
        assert_eq!(float_of(&average), 0.0);
        assert_eq!(average.hundredths(), 0);
        assert_eq!(average.to_text(), "0.00");
    }
}

#[test]
fn average_of_no_marks_is_zero() {
    let average = Average::of(0, 7);
    assert_eq!(average.significand(), 0);
    assert_eq!(average.to_text(), "0.00");
}

#[test]
fn average_of_179_over_3() {
    let average = Average::of(179, 3);
    assert_eq!(average.scale(), 1u128 << 47);
    assert_eq!(average.significand(), 8397336805201237);
    assert_eq!(float_of(&average), 179.0 / 3.0);
    assert_eq!(average.hundredths(), 5967);
    assert_eq!(average.to_text(), "59.67");
}

#[test]
fn average_is_the_floating_point_quotient() {
    let pairs: [(u32, u32); 16] = [
        (1, 1),
        (1, 3),
        (2, 3),
        (1, 200),
        (3, 200),
        (1, 8),
        (179, 3),
        (89999, 1000),
        (u32::MAX, 1),
        (u32::MAX, 2),
        (u32::MAX, 3),
        (1, u32::MAX),
        (u32::MAX, u32::MAX),
        (u32::MAX - 1, u32::MAX),
        (4294967291, 4294967279),
        (123456789, 1000),
    ];
    for (total, subjects) in pairs {
        let average = Average::of(total, subjects);
        assert_eq!(float_of(&average), total as f64 / subjects as f64);
    }
    let mut state: u64 = 2024;
    for round in 0..20000 {
        let mut total = next_random(&mut state);
        let mut subjects = next_random(&mut state);
        if round % 2 == 0 {
            total >>= next_random(&mut state) % 32;
            subjects >>= next_random(&mut state) % 32;
        }
        if subjects == 0 {
            subjects = 1;
        }
        let average = Average::of(total, subjects);
        assert_eq!(float_of(&average), total as f64 / subjects as f64);
    }
}

#[test]
fn significand_has_53_bits() {
    let mut state: u64 = 53;
    for _ in 0..5000 {
        let total = next_random(&mut state) | 1;
        let subjects = next_random(&mut state) | 1;
        let average = Average::of(total, subjects);
        assert!(average.significand() >= 1u64 << 52);
        assert!(average.significand() < 1u64 << 53);
        assert!(average.scale().is_power_of_two());
    }
}

#[test]
fn text_is_the_quotient_with_two_places() {
    let mut state: u64 = 7;
    for round in 0..20000 {
        let mut total = next_random(&mut state);
        let mut subjects = next_random(&mut state);
        if round % 2 == 0 {
            total >>= next_random(&mut state) % 32;
            subjects >>= next_random(&mut state) % 32;
        }
        if subjects == 0 {
            subjects = 1;
        }
        let expected = format!("{:.2}", total as f64 / subjects as f64);
        assert_eq!(Average::of(total, subjects).to_text(), expected);
    }
}

#[test]
fn text_of_small_quotients() {
    for subjects in 1u32..=400 {
        for total in 0u32..=1200 {
            let expected = format!("{:.2}", total as f64 / subjects as f64);
            assert_eq!(Average::of(total, subjects).to_text(), expected);
        }
    }
}

#[test]
fn halves_of_a_hundredth() {
    assert_eq!(Average::of(1, 8).to_text(), "0.12");
    assert_eq!(Average::of(3, 8).to_text(), "0.38");
    assert_eq!(Average::of(5, 8).to_text(), "0.62");
    assert_eq!(Average::of(7, 8).to_text(), "0.88");
    assert_eq!(Average::of(1, 200).to_text(), "0.01");
    assert_eq!(Average::of(3, 200).to_text(), "0.01");
    assert_eq!(Average::of(1, 40).to_text(), "0.03");
    assert_eq!(Average::of(201, 200).to_text(), "1.00");
    for (total, subjects) in [(1u32, 8u32), (3, 8), (1, 200), (3, 200), (1, 40), (201, 200)] {
        let expected = format!("{:.2}", total as f64 / subjects as f64);
        assert_eq!(Average::of(total, subjects).to_text(), expected);
    }
}

#[test]
fn largest_average() {
    let average = Average::of(u32::MAX, 1);
    assert_eq!(average.hundredths(), 429496729500);
    assert_eq!(average.to_text(), "4294967295.00");
}

#[test]
fn smallest_average() {
    let average = Average::of(1, u32::MAX);
    assert_eq!(average.hundredths(), 0);
    assert_eq!(average.to_text(), "0.00");
}

#[test]
fn average_does_not_fall_with_the_marks() {
    for subjects in [1u32, 2, 3, 7, 200, 65536, u32::MAX] {
        let mut state: u64 = subjects as u64;
        for _ in 0..2000 {
            let a = next_random(&mut state);
            let b = next_random(&mut state);
            let (smaller, larger) = if a <= b { (a, b) } else { (b, a) };
            let low = Average::of(smaller, subjects);
            let high = Average::of(larger, subjects);
            assert!(float_of(&low) <= float_of(&high));
            assert!(
                low.significand() as u128 * high.scale()
                    <= high.significand() as u128 * low.scale()
            );
            assert!(low.hundredths() <= high.hundredths());
        }
    }
}

#[test]
fn text_read_back_is_near_the_average() {
    let mut state: u64 = 5;
    for _ in 0..5000 {
        let total = next_random(&mut state) >> (next_random(&mut state) % 32);
        let subjects = (next_random(&mut state) >> (next_random(&mut state) % 32)).max(1);
        let average = Average::of(total, subjects);
        let read_back: f64 = average.to_text().parse().unwrap();
        assert!((read_back - float_of(&average)).abs() <= 0.005 + read_back * f64::EPSILON);
        let hundredths = average.hundredths() as i128;
        let error = 100 * average.significand() as i128 - hundredths * average.scale() as i128;
        assert!(2 * error.abs() <= average.scale() as i128);
    }
}

#[test]
fn text_of_a_half_read_back_as_a_float() {
    let average = Average::of(3113169, 8);
    assert_eq!(float_of(&average), 389146.125);
    assert_eq!(average.hundredths(), 38914612);
    assert_eq!(average.to_text(), "389146.12");
    let error = 100 * average.significand() as i128
        - average.hundredths() as i128 * average.scale() as i128;
    assert_eq!(2 * error, average.scale() as i128);
}

#[test]
fn at_least_compares_with_whole_marks() {
    let average = Average::of(270, 3);
    assert!(average.at_least(90));
    assert!(average.at_least(0));
    assert!(!average.at_least(91));
    let below = Average::of(89999, 1000);
    assert!(!below.at_least(90));
    assert!(below.at_least(89));
    assert!(Average::of(0, 0).at_least(0));
    assert!(!Average::of(5, 0).at_least(1));
    assert!(Average::of(u32::MAX, 1).at_least(u32::MAX));
}

#[test]
fn student_average_is_that_of_its_counts() {
    let student = Student::new(String::from("Grace"), 179, 3);
    let average = student.calculate_average();
    assert_eq!(float_of(&average), 179.0 / 3.0);
    assert_eq!(average.to_text(), "59.67");
    let idle = Student::new(String::from("Nobody"), 12, 0);
    assert_eq!(float_of(&idle.calculate_average()), 0.0);
}
