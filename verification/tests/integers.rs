use liszp::integer::Integer;

fn num(text: &str) -> Integer {
    Integer::parse_radix(text, 10).unwrap()
}

fn neg(text: &str) -> Integer {
    num(text).negated()
}

#[test]
fn numerals_in_three_radixes() {
    assert_eq!(Integer::parse_radix("1F", 16).unwrap().to_text(), "31");
    assert_eq!(Integer::parse_radix("ff_ff", 16).unwrap().to_text(), "65535");
    assert_eq!(Integer::parse_radix("1010", 2).unwrap().to_text(), "10");
    assert_eq!(Integer::parse_radix("1_000_000", 10).unwrap().to_text(), "1000000");
    assert_eq!(Integer::parse_radix("007", 10).unwrap().to_text(), "7");
    assert_eq!(Integer::parse_radix("0", 10).unwrap().to_text(), "0");
}

#[test]
fn what_is_no_numeral_is_refused() {
    assert!(Integer::parse_radix("", 10).is_none());
    assert!(Integer::parse_radix("_1", 10).is_none());
    assert!(Integer::parse_radix("12a", 10).is_none());
    assert!(Integer::parse_radix("102", 2).is_none());
    assert!(Integer::parse_radix("-5", 10).is_none());
    assert!(Integer::parse_radix("g", 16).is_none());
    assert!(Integer::parse_radix("1 2", 10).is_none());
}

#[test]
fn from_usize_and_zero() {
    assert_eq!(Integer::from_usize(0).to_text(), "0");
    assert_eq!(Integer::from_usize(9).to_text(), "9");
    assert_eq!(Integer::from_usize(10).to_text(), "10");
    assert_eq!(Integer::from_usize(4096).to_text(), "4096");
    assert_eq!(Integer::zero().to_text(), "0");
    assert!(Integer::zero().is_zero());
    assert!(!Integer::from_usize(1).is_zero());
}

#[test]
fn sums_differences_and_products_are_exact() {
    assert_eq!(num("2").plus(&num("3")).to_text(), "5");
    assert_eq!(num("2").minus(&num("3")).to_text(), "-1");
    assert_eq!(num("6").times(&num("7")).to_text(), "42");
    assert_eq!(neg("6").times(&num("7")).to_text(), "-42");
    let big = num("340282366920938463463374607431768211456");
    assert_eq!(big.plus(&big).to_text(), "680564733841876926926749214863536422912");
    assert_eq!(
        big.times(&big).to_text(),
        "115792089237316195423570985008687907853269984665640564039457584007913129639936"
    );
    assert_eq!(big.minus(&big.plus(&num("1"))).to_text(), "-1");
    assert_eq!(num("18446744073709551615").plus(&num("1")).to_text(), "18446744073709551616");
}

#[test]
fn negation_changes_the_sign() {
    assert_eq!(num("5").negated().to_text(), "-5");
    assert_eq!(neg("5").negated().to_text(), "5");
    assert_eq!(num("0").negated().to_text(), "0");
}

#[test]
fn the_quotient_is_rounded_toward_zero() {
    assert_eq!(num("7").quotient(&num("2")).unwrap().to_text(), "3");
    assert_eq!(neg("7").quotient(&num("2")).unwrap().to_text(), "-3");
    assert_eq!(num("7").quotient(&neg("2")).unwrap().to_text(), "-3");
    assert_eq!(neg("7").quotient(&neg("2")).unwrap().to_text(), "3");
    assert_eq!(num("6").quotient(&num("3")).unwrap().to_text(), "2");
    assert_eq!(num("0").quotient(&num("3")).unwrap().to_text(), "0");
    assert!(num("1").quotient(&num("0")).is_none());
}

#[test]
fn the_remainder_has_the_sign_of_the_dividend() {
    assert_eq!(num("7").remainder(&num("2")).unwrap().to_text(), "1");
    assert_eq!(neg("7").remainder(&num("2")).unwrap().to_text(), "-1");
    assert_eq!(num("7").remainder(&neg("2")).unwrap().to_text(), "1");
    assert_eq!(neg("7").remainder(&neg("2")).unwrap().to_text(), "-1");
    assert_eq!(num("6").remainder(&num("3")).unwrap().to_text(), "0");
    assert!(num("1").remainder(&num("0")).is_none());
}

#[test]
fn the_order_is_that_of_the_numbers() {
    assert!(num("2").is_less(&num("10")));
    assert!(!num("10").is_less(&num("2")));
    assert!(neg("10").is_less(&neg("2")));
    assert!(neg("1").is_less(&num("0")));
    assert!(!num("3").is_less(&num("3")));
    assert!(num("3").is_equal(&num("3")));
    assert!(num("3").is_equal(&Integer::parse_radix("11", 2).unwrap()));
    assert!(!num("3").is_equal(&neg("3")));
}

#[test]
fn a_copy_is_the_same_number() {
    let x = num("123456789012345678901234567890");
    assert!(x.copy().is_equal(&x));
    assert_eq!(x.copy().to_text(), "123456789012345678901234567890");
}
