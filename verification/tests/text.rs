use perf_probe::numeral::{parse_int, parse_u32, IntFault};
use perf_probe::text::{chars_of, push_decimal, push_signed, same_text, white_space};

#[test]
fn white_space_agrees_with_std_on_every_char() {
    for code in 0..=0x10FFFFu32 {
        if let Some(c) = char::from_u32(code) {
            assert_eq!(white_space(c), c.is_whitespace(), "{:x}", code);
        }
    }
}

#[test]
fn decimal_notation_agrees_with_display() {
    for n in [0u64, 1, 9, 10, 19, 100, 61444, 303054, 9999, u32::MAX as u64, u64::MAX] {
        let mut out = String::from("x");
        push_decimal(&mut out, n);
        assert_eq!(out, format!("x{}", n));
    }
    for i in [0i64, 7, -1, -10, -32, 60, i32::MIN as i64, i64::MAX, i64::MIN] {
        let mut out = String::new();
        push_signed(&mut out, i);
        assert_eq!(out, format!("{}", i));
    }
}

const SAMPLES: [&str; 22] = [
    "",
    "0",
    "7",
    "007",
    "+5",
    "-5",
    "-0",
    "+",
    "-",
    "+-5",
    "4294967295",
    "4294967296",
    "99999999999999999999x",
    "42x",
    "x42",
    " 42",
    "4 2",
    "1_000",
    "２",
    "2147483647",
    "-2147483648",
    "-2147483649",
];

#[test]
fn unsigned_numbers_agree_with_std() {
    for s in SAMPLES {
        let ours = parse_u32(&chars_of(s));
        match (s.parse::<u32>(), ours) {
            (Ok(a), Ok(b)) => assert_eq!(a, b, "{s}"),
            (Err(a), Err(b)) => assert_eq!(a.to_string(), b.message(), "{s}"),
            (a, b) => panic!("{s}: {a:?} {b:?}"),
        }
    }
}

#[test]
fn signed_numbers_agree_with_std() {
    for s in SAMPLES {
        let ours = parse_int(&chars_of(s), i32::MIN as i64, i32::MAX as u64);
        match (s.parse::<i32>(), ours) {
            (Ok(a), Ok(b)) => assert_eq!(a as i128, b, "{s}"),
            (Err(a), Err(b)) => assert_eq!(a.to_string(), b.message(), "{s}"),
            (a, b) => panic!("{s}: {a:?} {b:?}"),
        }
    }
}

#[test]
fn each_number_fault_has_an_input() {
    let small = |s: &str| parse_int(&chars_of(s), -10, 10);
    assert_eq!(small(""), Err(IntFault::Empty));
    assert_eq!(small("a"), Err(IntFault::InvalidDigit));
    assert_eq!(small("11"), Err(IntFault::TooLarge));
    assert_eq!(small("-11"), Err(IntFault::TooSmall));
    assert_eq!(small("-10"), Ok(-10));
}

#[test]
fn written_numbers_are_read_back() {
    for i in [-2147483648i64, -60, 0, 32, 2147483647] {
        let mut out = String::new();
        push_signed(&mut out, i);
        let read = parse_int(&chars_of(&out), i32::MIN as i64, i32::MAX as u64);
        assert_eq!(read, Ok(i as i128));
    }
}

#[test]
fn texts_are_compared_by_characters() {
    assert!(same_text("训练", "训练"));
    assert!(!same_text("训练", "训"));
    assert_eq!(chars_of("a训"), vec!['a', '训']);
}
