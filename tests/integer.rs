use intinfo::cli::{build_integer, radix, total_bits, App, RunError};
use intinfo::format::FormatBits;
use intinfo::integer::{Integer, IntegerError, IntegerOptions};
use intinfo::parse::{identify_radix, parse, parse_signed};

fn make(v: u64, signed: bool, size: usize, sig: Option<usize>, ext: bool) -> Integer {
    Integer::new(v, IntegerOptions::new(signed, size, sig, ext)).unwrap()
}

fn app(input: &str) -> App {
    App { input: input.to_string(), ..App::default() }
}

#[test]
fn ten_unsigned_inferred_width() {
    let i = build_integer(&app("10")).unwrap();
    assert_eq!(i.bits(), 4);
    assert_eq!(i.binary_string(), "1010");
    assert_eq!(i.octal_string(), "12");
    assert_eq!(i.hex_string(), "a");
    assert_eq!(i.decimal_string(), "10");
    assert!(!i.is_negative());
}

#[test]
fn ten_with_inferred_significant_bits() {
    let i = make(10, false, 4, None, false);
    assert_eq!(i.binary_string(), "1010");
    assert_eq!(i.decimal_string(), "10");
}

#[test]
fn minus_five_in_eight_bits() {
    let mut i = make((-5i64) as u64, true, 8, Some(4), true);
    assert_eq!(i.hex_string(), "fb");
    assert_eq!(i.binary_string(), "11111011");
    assert!(i.is_negative());
    assert_eq!(i.decimal_string(), "-5");
    i.make_twos_complement();
    assert_eq!(i.hex_string(), "05");
    assert_eq!(i.decimal_string(), "5");
    assert!(!i.is_negative());
}

#[test]
fn minus_five_from_the_command_line() {
    let mut a = app("-5");
    a.bits = Some(8);
    let mut i = build_integer(&a).unwrap();
    assert_eq!(i.bits(), 8);
    assert_eq!(i.hex_string(), "fb");
    assert!(i.is_negative());
    i.make_twos_complement();
    assert_eq!(i.hex_string(), "05");
    assert!(!i.is_negative());
}

#[test]
fn zero_in_one_bit() {
    let i = make(0, false, 1, None, false);
    assert_eq!(i.binary_string(), "0");
    assert_eq!(i.octal_string(), "0");
    assert_eq!(i.hex_string(), "0");
    assert_eq!(i.decimal_string(), "0");
}

#[test]
fn zero_with_inferred_width_has_no_bits() {
    let i = build_integer(&app("0")).unwrap();
    assert_eq!(i.bits(), 0);
    assert_eq!(i.binary_string(), "");
    assert_eq!(i.decimal_string(), "0");
}

#[test]
fn width_matches_request() {
    for w in 1..=64usize {
        let v = if w == 64 { u64::MAX } else { (1u64 << w) - 1 };
        assert_eq!(make(v, false, w, None, false).bits(), w);
        assert_eq!(make(0, false, w, None, false).binary_string().len(), w);
    }
}

#[test]
fn width_above_storage_is_refused() {
    let r = Integer::new(1, IntegerOptions::new(false, 65, None, false));
    assert!(matches!(r, Err(IntegerError::WidthExceedsStorage)));
}

#[test]
fn decimal_round_trip() {
    for v in [0u64, 1, 9, 10, 255, 1234567, u64::MAX] {
        let i = make(v, false, 64, None, false);
        let (back, _) = parse(&i.decimal_string(), 10).unwrap();
        assert_eq!(back, v);
    }
}

#[test]
fn binary_round_trip() {
    let i = make(0b1011_0010, false, 12, None, false);
    let s = i.binary_string();
    assert_eq!(s.len(), 12);
    assert_eq!(s, "000010110010");
    let (back, n) = parse(&s, 2).unwrap();
    assert_eq!(back, 0b1011_0010);
    assert_eq!(n, Some(12));
}

#[test]
fn twos_complement_twice_restores_bits() {
    let mut i = make(0b0110_1000, false, 8, None, false);
    i.make_twos_complement();
    assert_eq!(i.binary_string(), "10011000");
    assert!(!i.is_negative());
    i.make_twos_complement();
    assert_eq!(i.binary_string(), "01101000");
}

#[test]
fn twos_complement_of_zero_is_zero() {
    let mut i = make(0, true, 5, None, false);
    i.make_twos_complement();
    assert_eq!(i.binary_string(), "00000");
}

#[test]
fn groups_on_widths_not_divisible() {
    let i = make(0b1_1111_1111, false, 9, None, false);
    assert_eq!(i.octal_string(), "777");
    assert_eq!(i.hex_string(), "1ff");
    let j = make(0b10_0000_0001, false, 10, None, false);
    assert_eq!(j.octal_string(), "1001");
    assert_eq!(j.hex_string(), "201");
    let k = make(0xabc, false, 12, None, false);
    assert_eq!(k.hex_string(), "abc");
    assert_eq!(k.octal_string(), "5274");
}

#[test]
fn sign_extend_fills_with_ones() {
    let i = make(0b101, false, 8, Some(3), true);
    assert_eq!(i.binary_string(), "11111101");
    let j = make(0b101, false, 8, Some(3), false);
    assert_eq!(j.binary_string(), "00000101");
}

#[test]
fn most_negative_64_bit_decimal() {
    let i = make(1u64 << 63, true, 64, None, false);
    assert!(i.is_negative());
    assert_eq!(i.decimal_string(), "-9223372036854775808");
}

#[test]
fn identify_radix_prefixes() {
    assert_eq!(identify_radix("0x1f"), Some(16));
    assert_eq!(identify_radix("0b101"), Some(2));
    assert_eq!(identify_radix("0o17"), Some(8));
    assert_eq!(identify_radix("0O17"), Some(8));
    assert_eq!(identify_radix("0X1f"), None);
    assert_eq!(identify_radix("17"), None);
    assert_eq!(identify_radix("0"), None);
}

#[test]
fn parse_with_prefixes() {
    assert_eq!(parse("0x1F", 16).unwrap(), (31, Some(8)));
    assert_eq!(parse("0X1f", 16).unwrap(), (31, Some(8)));
    assert_eq!(parse("0o17", 8).unwrap(), (15, Some(6)));
    assert_eq!(parse("0b0101", 2).unwrap(), (5, Some(4)));
    assert_eq!(parse("42", 10).unwrap(), (42, None));
    assert_eq!(parse("z", 36).unwrap(), (35, None));
    assert!(parse("12a", 10).is_err());
    assert!(parse("", 10).is_err());
    assert!(parse("18446744073709551616", 10).is_err());
    assert_eq!(parse_signed("-5", 10).unwrap(), (-5, None));
    assert!(parse_signed("-", 10).is_err());
}

#[test]
fn flags_pick_width_and_radix() {
    let mut a = app("1");
    assert_eq!(total_bits(&a), None);
    assert_eq!(radix(&a), None);
    a.long = true;
    assert_eq!(total_bits(&a), Some(64));
    a.integer = true;
    assert_eq!(total_bits(&a), Some(32));
    a.bytes = Some(2);
    assert_eq!(total_bits(&a), Some(16));
    a.bits = Some(5);
    assert_eq!(total_bits(&a), Some(5));
    a.hexadecimal = true;
    assert_eq!(radix(&a), Some(16));
    a.binary = true;
    assert_eq!(radix(&a), Some(2));
    a.radix = Some(7);
    assert_eq!(radix(&a), Some(7));
}

#[test]
fn command_line_errors() {
    let mut a = app("1");
    a.bits = Some(65);
    assert!(matches!(build_integer(&a), Err(RunError::TooManyBits)));
    let mut b = app("1");
    b.bytes = Some(9);
    assert!(matches!(build_integer(&b), Err(RunError::TooManyBits)));
    assert!(matches!(build_integer(&app("zz")), Err(RunError::Parse(_))));
    let wide = format!("0b{}", "0".repeat(70));
    assert!(matches!(build_integer(&app(&wide)), Err(RunError::Width(IntegerError::WidthExceedsStorage))));
}

#[test]
fn command_line_prefix_and_zero_extend() {
    let i = build_integer(&app("0x0f")).unwrap();
    assert_eq!(i.bits(), 8);
    assert_eq!(i.binary_string(), "00001111");
    let mut a = app("-1");
    a.bits = Some(8);
    a.zero_extend = true;
    let j = build_integer(&a).unwrap();
    assert_eq!(j.binary_string(), "11111111");
    assert_eq!(j.decimal_string(), "-1");
}
