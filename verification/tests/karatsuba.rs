use karatsuba::{calculate_split, multiply, pow_of_ten, BASE_CASE_DIGITS};
use num_bigint::BigUint;

fn big(s: &str) -> BigUint {
    BigUint::parse_bytes(s.as_bytes(), 10).unwrap()
}

/// Small deterministic generator for the random cross-check trials.
struct Lcg(u64);

impl Lcg {
    fn next(&mut self) -> u64 {
        self.0 = self
            .0
            .wrapping_mul(6364136223846793005)
            .wrapping_add(1442695040888963407);
        self.0 >> 33
    }

    fn digits(&mut self, count: usize) -> String {
        let mut s = String::new();
        for i in 0..count {
            let d = if i == 0 {
                1 + self.next() % 9
            } else {
                self.next() % 10
            };
            s.push(char::from(b'0' + d as u8));
        }
        s
    }
}

#[test]
fn multiply_by_zero_is_zero() {
    assert_eq!(multiply(&big("2735"), &big("0")), big("0"));
    assert_eq!(multiply(&big("0"), &big("2735")), big("0"));
    assert_eq!(multiply(&big("0"), &big("0")), big("0"));
    let huge = big(&"123456789".repeat(40));
    assert_eq!(multiply(&huge, &big("0")), big("0"));
}

#[test]
fn multiply_by_one_is_identity() {
    assert_eq!(multiply(&big("99999999999999999999"), &big("1")), big("99999999999999999999"));
    assert_eq!(multiply(&big("1"), &big("99999999999999999999")), big("99999999999999999999"));
    assert_eq!(multiply(&big("1"), &big("1")), big("1"));
    let huge = big(&"907060504030201".repeat(25));
    assert_eq!(multiply(&huge, &big("1")), huge);
}

#[test]
fn multiply_medium_pair_exact_value() {
    let left = big("2508921123");
    let right = big("142312321");
    let product = multiply(&left, &right);
    assert_eq!(product, &left * &right);
    assert_eq!(product, big("357050388220056483"));
}

#[test]
fn multiply_twenty_digit_pair_matches_reference() {
    let left = big("12345678901234567890");
    let right = big("98765432109876543210");
    let product = multiply(&left, &right);
    assert_eq!(product, &left * &right);
    assert_eq!(product.to_str_radix(10), (&left * &right).to_str_radix(10));
}

#[test]
fn multiply_is_commutative() {
    let pairs = [
        ("12345", "6789"),
        ("99999999999999999999", "123456789123456789"),
        ("2", "100000000000000000000000000000001"),
    ];
    for (l, r) in pairs {
        assert_eq!(multiply(&big(l), &big(r)), multiply(&big(r), &big(l)));
    }
}

#[test]
fn multiply_is_associative_on_samples() {
    let triples = [
        ("12345", "6789", "424242"),
        ("99999", "100001", "31415926535"),
        ("7", "123456789012345678901234567890", "11"),
    ];
    for (x, y, z) in triples {
        let xy_z = multiply(&multiply(&big(x), &big(y)), &big(z));
        let x_yz = multiply(&big(x), &multiply(&big(y), &big(z)));
        assert_eq!(xy_z, x_yz);
    }
}

#[test]
fn threshold_boundary_base_case_agrees_with_forced_split() {
    // Both operands sit exactly at the base-case digit count, so `multiply`
    // takes the direct branch; recombining a hand-forced split must give
    // the same product.
    assert_eq!(BASE_CASE_DIGITS, 4);
    let pairs = [("9999", "9999"), ("1000", "9999"), ("1234", "5678")];
    for (l, r) in pairs {
        let left = big(l);
        let right = big(r);
        let direct = multiply(&left, &right);

        let n = 2usize;
        let p = pow_of_ten(n);
        let sl = calculate_split(&left, n);
        let sr = calculate_split(&right, n);
        let a = multiply(&sl.high, &sr.high);
        let b = multiply(&sl.low, &sr.low);
        let c = multiply(&(&sl.high + &sl.low), &(&sr.high + &sr.low));
        let middle = &c - &a - &b;
        let forced = &a * &p * &p + &middle * &p + &b;

        assert_eq!(direct, forced);
        assert_eq!(direct, &left * &right);
    }
}

#[test]
fn split_keeps_low_digits_and_recombines() {
    let v = big("123456");
    let s = calculate_split(&v, 3);
    assert_eq!(s.low, big("456"));
    assert_eq!(s.high, big("123"));

    // Splitting at zero digits keeps everything in the high half.
    let s0 = calculate_split(&v, 0);
    assert_eq!(s0.low, big("0"));
    assert_eq!(s0.high, v);

    // A value below the divisor lands whole in the low half.
    let small = calculate_split(&big("5"), 3);
    assert_eq!(small.low, big("5"));
    assert_eq!(small.high, big("0"));

    // Zero splits into zero halves.
    let z = calculate_split(&big("0"), 7);
    assert_eq!(z.low, big("0"));
    assert_eq!(z.high, big("0"));
}

#[test]
fn split_invariant_holds_on_samples() {
    let values = ["0", "9", "10", "99999", "123456789012345678901234567890"];
    for v in values {
        for n in 0usize..12 {
            let value = big(v);
            let divisor = pow_of_ten(n);
            let s = calculate_split(&value, n);
            assert_eq!(&s.high * &divisor + &s.low, value);
            assert!(s.low < divisor);
        }
    }
}

#[test]
fn pow_of_ten_matches_decimal_shifts() {
    assert_eq!(pow_of_ten(0), big("1"));
    assert_eq!(pow_of_ten(1), big("10"));
    assert_eq!(pow_of_ten(3), big("1000"));
    let mut expected = String::from("1");
    expected.push_str(&"0".repeat(40));
    assert_eq!(pow_of_ten(40), big(&expected));
}

#[test]
fn multiply_hundred_digit_pair_matches_reference() {
    let left = big(&"31415926535897932384".repeat(5));
    let right = big(&"27182818284590452353".repeat(5));
    assert_eq!(multiply(&left, &right), &left * &right);
}

#[test]
fn multiply_thousand_digit_pair_matches_reference() {
    let mut gen = Lcg(0x5eed);
    let left = big(&gen.digits(1000));
    let right = big(&gen.digits(1000));
    assert_eq!(multiply(&left, &right), &left * &right);
}

#[test]
fn multiply_random_pairs_match_reference() {
    let mut gen = Lcg(42);
    for trial in 0..1000u64 {
        let len_left = 1 + (gen.next() % 300) as usize;
        let len_right = 1 + (gen.next() % 300) as usize;
        let left = big(&gen.digits(len_left));
        let right = big(&gen.digits(len_right));
        assert_eq!(multiply(&left, &right), &left * &right, "trial {trial}");
    }
}

#[test]
fn multiply_uneven_lengths_match_reference() {
    let pairs = [
        ("2", "123456789012345678901234567890123456789"),
        ("100000", "7"),
        ("10000", "99999"),
        ("99999", "10000"),
        ("100001", "100001"),
        ("1000000000000000000000000000000", "999"),
    ];
    for (l, r) in pairs {
        let left = big(l);
        let right = big(r);
        assert_eq!(multiply(&left, &right), &left * &right);
    }
}
