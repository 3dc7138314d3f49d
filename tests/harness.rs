use testa::check::{eq, is, verify};
use testa::demo::{gcd, gcdtb, multiply_tb, verify_gcd, GcdGrid, ProductGrid};
use testa::order::name_less;
use testa::registry::Registry;
use testa::runner::{ego, exit_code, Outcome};
use testa::text::Describe;

type Case = Box<dyn FnOnce() -> Option<String>>;

fn repeated_addition(a: &(i32, i32)) -> i32 {
    let mut r: i32 = 0;
    for _ in 0..a.1 {
        r = r + a.0;
    }
    r
}

fn args(v: &[&str]) -> Vec<String> {
    v.iter().map(|s| s.to_string()).collect()
}

fn sample_registry() -> Registry<Case> {
    let mut cases: Registry<Case> = Registry::new();
    let pass = is(|| 1 + 2, 3);
    let fail = is(|| 2 + 2, 3);
    assert!(cases.register("testTesta.correctAddition".to_string(), Box::new(move || pass.run())).is_ok());
    assert!(cases.register("testTesta.wrongAddition".to_string(), Box::new(move || fail.run())).is_ok());
    cases
}

#[test]
fn fixed_value_passes_on_equal_result() {
    assert_eq!(is(|| 1 + 2, 3).run(), None);
}

#[test]
fn fixed_value_fails_with_both_values() {
    let r = is(|| 2 + 2, 3).run();
    assert_eq!(r, Some("expect: 3, actual: 4".to_string()));
}

#[test]
fn oracle_equivalence_passes_for_multiplication() {
    let c = eq(|a: &(i32, i32)| a.0 * a.1, repeated_addition, ProductGrid);
    assert_eq!(c.run(), None);
}

#[test]
fn oracle_equivalence_reports_first_divergent_pair() {
    let c = eq(|a: &(i32, i32)| a.0 + a.1, repeated_addition, ProductGrid);
    assert_eq!(c.run(), Some("expect: 1, actual: 2, by applying (1, 1)".to_string()));
}

#[test]
fn oracle_equivalence_reports_pair_one_two() {
    // agrees on (1, 1), differs first on (1, 2)
    let c = eq(
        |a: &(i32, i32)| if a.0 == 1 && a.1 == 1 { 1 } else { a.0 + a.1 },
        repeated_addition,
        ProductGrid,
    );
    assert_eq!(c.run(), Some("expect: 2, actual: 3, by applying (1, 2)".to_string()));
}

#[test]
fn verifier_check_passes_for_gcd() {
    let c = verify(|a: &(i32, i32)| gcd(a.0, a.1), verify_gcd, GcdGrid);
    assert_eq!(c.run(), None);
}

#[test]
fn verifier_check_fails_for_wrong_gcd() {
    let c = verify(
        |a: &(i32, i32)| if a.0 == 1 { 10 } else { gcd(a.0, a.1) },
        verify_gcd,
        GcdGrid,
    );
    let r = c.run().unwrap();
    assert_eq!(r, "wrong answer: 10 by applying (1, 0)");
    assert!(r.contains("10") && r.contains("(1, 0)"));
}

#[test]
fn gcd_values() {
    assert_eq!(gcd(12, 18), 6);
    assert_eq!(gcd(0, 7), 7);
    assert_eq!(gcd(7, 0), 7);
    assert_eq!(gcd(1, 12), 1);
    assert_eq!(gcd(12, 12), 12);
}

#[test]
fn verify_gcd_cases() {
    assert_eq!(verify_gcd(&3, &(6, 9)), None);
    assert_eq!(verify_gcd(&-3, &(6, -9)), None);
    assert_eq!(verify_gcd(&4, &(6, 8)), Some("wrong answer: 4 by applying (6, 8)".to_string()));
    assert_eq!(verify_gcd(&0, &(0, 0)), None);
    assert_eq!(verify_gcd(&0, &(0, 5)), Some("wrong answer: 0 by applying (0, 5)".to_string()));
}

#[test]
fn gcd_testbench_order_and_exclusion() {
    let seen = std::cell::RefCell::new(Vec::new());
    let r = gcdtb(&|p: &(i32, i32)| {
        seen.borrow_mut().push(*p);
        None
    });
    assert_eq!(r, None);
    let seen = seen.into_inner();
    assert_eq!(seen.len(), 168);
    assert_eq!(seen[0], (0, 1));
    assert_eq!(seen[12], (1, 0));
    assert_eq!(seen[167], (12, 12));
    assert!(!seen.contains(&(0, 0)));
}

#[test]
fn multiply_testbench_stops_at_first_failure() {
    let count = std::cell::Cell::new(0);
    let r = multiply_tb(&|p: &(i32, i32)| {
        count.set(count.get() + 1);
        if p.0 == 2 && p.1 == 3 { Some(format!("{:?}", p)) } else { None }
    });
    assert_eq!(r, Some("(2, 3)".to_string()));
    assert_eq!(count.get(), 8);
}

#[test]
fn describe_integers_and_pairs() {
    assert_eq!((-5i32).describe(), "-5");
    assert_eq!(0i32.describe(), "0");
    assert_eq!((12i32, -3i32).describe(), "(12, -3)");
}

#[test]
fn lexicographic_order() {
    assert!(name_less("a", "b"));
    assert!(name_less("a", "ab"));
    assert!(!name_less("ab", "a"));
    assert!(!name_less("abc", "abc"));
    assert!(name_less("", "a"));
    assert!(name_less("Z", "a"));
}

#[test]
fn take_returns_registered_case() {
    let mut cases = sample_registry();
    let direct = is(|| 2 + 2, 3).run();
    let c = cases.take("testTesta.wrongAddition").unwrap();
    assert_eq!(c(), direct);
    assert!(cases.take("testTesta.wrongAddition").is_none());
    assert_eq!(cases.names(), vec!["testTesta.correctAddition".to_string()]);
}

#[test]
fn duplicate_name_is_refused() {
    let mut cases = sample_registry();
    let again = is(|| 0, 0);
    let r = cases.register("testTesta.correctAddition".to_string(), Box::new(move || again.run()));
    assert!(r.is_err());
    assert_eq!(cases.names().len(), 2);
    // the first case stays
    assert_eq!(cases.take("testTesta.correctAddition").unwrap()(), None);
}

#[test]
fn show_cases_is_sorted_and_stable() {
    let mut a: Registry<u32> = Registry::new();
    let mut b: Registry<u32> = Registry::new();
    for (i, n) in ["b.two", "a.one", "c.three"].iter().enumerate() {
        assert!(a.register(n.to_string(), i as u32).is_ok());
    }
    for (i, n) in ["c.three", "b.two", "a.one"].iter().enumerate() {
        assert!(b.register(n.to_string(), i as u32).is_ok());
    }
    let expected = args(&["a.one", "b.two", "c.three"]);
    assert_eq!(a.names(), expected);
    assert_eq!(a.names(), expected);
    assert_eq!(b.names(), expected);
}

#[test]
fn ego_help() {
    let mut cases = sample_registry();
    assert!(matches!(ego(&args(&["prog", "-h"]), &mut cases), Outcome::Help));
    assert!(matches!(ego(&args(&["prog", "x", "--help", "y"]), &mut cases), Outcome::Help));
    assert_eq!(exit_code(&Outcome::Help), 0);
    assert_eq!(cases.names().len(), 2);
}

#[test]
fn ego_show_cases() {
    let mut cases = sample_registry();
    match ego(&args(&["prog", "--show-cases"]), &mut cases) {
        Outcome::Listing(v) => {
            assert_eq!(v, args(&["testTesta.correctAddition", "testTesta.wrongAddition"]))
        }
        _ => panic!("expected a listing"),
    }
}

#[test]
fn ego_runs_named_case() {
    let mut cases = sample_registry();
    let o = ego(&args(&["prog", "testTesta.correctAddition"]), &mut cases);
    assert!(matches!(o, Outcome::Pass));
    assert_eq!(exit_code(&o), 0);
    let o = ego(&args(&["prog", "testTesta.wrongAddition"]), &mut cases);
    match &o {
        Outcome::Fail(m) => assert_eq!(m, "expect: 3, actual: 4"),
        _ => panic!("expected a failure"),
    }
    assert_eq!(exit_code(&o), 1);
}

#[test]
fn ego_argument_errors() {
    let mut cases = sample_registry();
    let o = ego(&args(&["prog", "nope"]), &mut cases);
    match &o {
        Outcome::ArgsError(m) => assert_eq!(m, "unknown arg: nope"),
        _ => panic!("expected an argument error"),
    }
    assert_eq!(exit_code(&o), 2);
    let o = ego(&args(&["prog"]), &mut cases);
    match &o {
        Outcome::ArgsError(m) => assert_eq!(m, "want exactly one arg"),
        _ => panic!("expected an argument error"),
    }
    assert_eq!(exit_code(&o), 2);
    let o = ego(&args(&["prog", "a", "b"]), &mut cases);
    assert_eq!(exit_code(&o), 2);
    assert_ne!(exit_code(&o), exit_code(&Outcome::Fail(String::new())));
}
