use bandmix::text::{parse_i32, parse_u32};

const TEXTS: [&str; 34] = [
    "", "0", "7", "42", "007", "+5", "+", "-", "-0", "-5", "+-5", "--5", "5-", "4294967295",
    "4294967296", "42949672950", "99999999999999999999", "2147483647", "2147483648",
    "-2147483648", "-2147483649", "+2147483647", "+4294967295", " 5", "5 ", "1_000", "1.0",
    "0x10", "12a", "a12", "１２", "é", "+0000000000000000000000000000012", "-000000000000000000001",
];

#[test]
fn parse_u32_reads_what_the_standard_library_reads() {
    for text in TEXTS {
        assert_eq!(parse_u32(text), text.parse::<u32>().ok(), "{:?}", text);
    }
}

#[test]
fn parse_i32_reads_what_the_standard_library_reads() {
    for text in TEXTS {
        assert_eq!(parse_i32(text), text.parse::<i32>().ok(), "{:?}", text);
    }
}

#[test]
fn parse_gives_the_exact_numbers() {
    assert_eq!(parse_u32("4294967295"), Some(u32::MAX));
    assert_eq!(parse_u32("4294967296"), None);
    assert_eq!(parse_u32("+17"), Some(17));
    assert_eq!(parse_u32("-17"), None);
    assert_eq!(parse_i32("-2147483648"), Some(i32::MIN));
    assert_eq!(parse_i32("2147483647"), Some(i32::MAX));
    assert_eq!(parse_i32("2147483648"), None);
    assert_eq!(parse_i32("-17"), Some(-17));
    assert_eq!(parse_i32(""), None);
}
