use dmi::combinatorics::checked_factorial;
use dmi::{DMIError, DMI};

struct Own;

impl DMI for Own {}

fn ratio(n: usize, m: usize) -> Result<usize, DMIError> {
    Own::calculate_factorials(&n, &m)
}

#[test]
fn factorial_of_small_arguments() {
    assert_eq!(checked_factorial(0), Some(1));
    assert_eq!(checked_factorial(1), Some(1));
    assert_eq!(checked_factorial(2), Some(2));
    assert_eq!(checked_factorial(5), Some(120));
    assert_eq!(checked_factorial(10), Some(3_628_800));
    assert_eq!(checked_factorial(12), Some(479_001_600));
}

#[test]
fn factorial_follows_its_recurrence() {
    let mut expected: u128 = 1;
    for n in 1..=40usize {
        expected *= n as u128;
        let fits = expected <= usize::MAX as u128;
        let got = checked_factorial(n);
        if fits {
            assert_eq!(got, Some(expected as usize), "{n}!");
        } else {
            assert_eq!(got, None, "{n}!");
        }
    }
}

#[test]
fn factorial_beyond_every_usize() {
    assert_eq!(checked_factorial(21), None);
    assert_eq!(checked_factorial(34), None);
    assert_eq!(checked_factorial(35), None);
    assert_eq!(checked_factorial(129), None);
    assert_eq!(checked_factorial(usize::MAX), None);
}

#[test]
fn ratio_has_exact_values() {
    assert_eq!(ratio(0, 0), Ok(1));
    assert_eq!(ratio(4, 2), Ok(6));
    assert_eq!(ratio(5, 2), Ok(10));
    assert_eq!(ratio(10, 3), Ok(120));
    assert_eq!(ratio(12, 6), Ok(924));
}

#[test]
fn ratio_is_symmetric() {
    for n in 0..=12usize {
        for m in 0..=n {
            assert_eq!(ratio(n, m), ratio(n, n - m), "n = {n}, m = {m}");
            assert!(ratio(n, m).is_ok());
        }
    }
    assert_eq!(ratio(30, 4), ratio(30, 26));
    assert_eq!(ratio(30, 4), Err(DMIError::FactorialCalc));
}

#[test]
fn ratio_is_one_at_both_ends() {
    for n in 0..=12usize {
        assert_eq!(ratio(n, 0), Ok(1), "n = {n}");
        assert_eq!(ratio(n, n), Ok(1), "n = {n}");
    }
}

#[test]
fn ratio_follows_pascals_rule() {
    for n in 1..=12usize {
        for m in 1..n {
            let sum = ratio(n - 1, m - 1).unwrap() + ratio(n - 1, m).unwrap();
            assert_eq!(ratio(n, m), Ok(sum), "n = {n}, m = {m}");
        }
    }
}

#[test]
fn ratio_times_denominator_is_the_factorial() {
    for n in 0..=12usize {
        for m in 0..=n {
            let d = checked_factorial(m).unwrap() * checked_factorial(n - m).unwrap();
            assert_eq!(ratio(n, m).unwrap() * d, checked_factorial(n).unwrap());
        }
    }
}

#[test]
fn ratio_of_more_than_there_is() {
    assert_eq!(ratio(2, 3), Err(DMIError::NLessThanM));
    assert_eq!(ratio(0, 1), Err(DMIError::NLessThanM));
    assert_eq!(ratio(11, 12), Err(DMIError::NLessThanM));
}

#[test]
fn ratio_of_a_factorial_too_large() {
    assert_eq!(ratio(21, 1), Err(DMIError::FactorialCalc));
    assert_eq!(ratio(100, 100), Err(DMIError::FactorialCalc));
    assert_eq!(ratio(usize::MAX, 0), Err(DMIError::FactorialCalc));
}

#[test]
fn ratio_checks_both_factorials_before_the_difference() {
    assert_eq!(ratio(3, 21), Err(DMIError::FactorialCalc));
    assert_eq!(ratio(3, usize::MAX), Err(DMIError::FactorialCalc));
}

#[test]
fn ratio_fails_in_two_ways_only() {
    for n in 0..45usize {
        for m in 0..45usize {
            let expected = if n > 20 || m > 20 {
                Err(DMIError::FactorialCalc)
            } else if m > n {
                Err(DMIError::NLessThanM)
            } else {
                let d = checked_factorial(m).unwrap() * checked_factorial(n - m).unwrap();
                Ok(checked_factorial(n).unwrap() / d)
            };
            assert_eq!(ratio(n, m), expected, "n = {n}, m = {m}");
        }
    }
}

#[test]
fn a_type_of_the_caller_takes_the_operations() {
    assert_eq!(Own::calculate_factorials(&7, &3), dmi::Engine::calculate_factorials(&7, &3));
    assert_eq!(Own::calculate_factorials(&7, &3), Ok(35));
    let m = Own::get_mechanism(&[1, 0], &[1, 1], &2).unwrap();
    assert_eq!(m.row(0), vec![0, 1]);
    assert_eq!(m.row(1), vec![0, 1]);
}

#[test]
fn check_answers_is_the_half_open_range() {
    assert!(Own::check_answers(&0, &1));
    assert!(Own::check_answers(&2, &3));
    assert!(!Own::check_answers(&3, &3));
    assert!(!Own::check_answers(&4, &3));
    assert!(!Own::check_answers(&0, &0));
}
