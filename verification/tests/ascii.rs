use weblite::ascii::{atoi, AsciiInt};

#[test]
fn test_atoi() {
    assert!(atoi("0".as_bytes()) == Some(0));
    assert!(atoi("5".as_bytes()) == Some(5));
    assert!(atoi("123".as_bytes()) == Some(123));
    assert!(atoi("123456789".as_bytes()) == Some(123456789));
    assert!(atoi("0123456789".as_bytes()) == Some(123456789));
    assert!(atoi("abc".as_bytes()) == None);
    assert!(atoi("123a456".as_bytes()) == None);
}

#[test]
fn test_itoa() {
    let a: AsciiInt = 1u64.into();
    assert!("1" == a.as_str(), "got: {:?}", a.as_str());
    let a: AsciiInt = 12u64.into();
    assert!("12" == a.as_str(), "got: {:?}", a.as_str());
    let a: AsciiInt = 123u64.into();
    assert!("123" == a.as_str(), "got: {:?}", a.as_str());
    let a: AsciiInt = 1203u64.into();
    assert!("1203" == a.as_str(), "got: {:?}", a.as_str());
    let a: AsciiInt = 12030u64.into();
    assert!("12030" == a.as_str(), "got: {:?}", a.as_str());
    let a: AsciiInt = 100002u64.into();
    assert!("100002" == a.as_str(), "got: {:?}", a.as_str());
}

#[test]
fn atoi_refuses_empty_input() {
    assert_eq!(atoi(b""), None);
}

#[test]
fn atoi_refuses_a_non_digit_anywhere() {
    assert_eq!(atoi(b" 1"), None);
    assert_eq!(atoi(b"1 "), None);
    assert_eq!(atoi(b"-1"), None);
    assert_eq!(atoi(b"+1"), None);
    assert_eq!(atoi(b"1.0"), None);
    assert_eq!(atoi(b"12\r"), None);
    assert_eq!(atoi(&[0x2f]), None);
    assert_eq!(atoi(&[0x3a]), None);
    assert_eq!(atoi(&[0x31, 0xff]), None);
}

#[test]
fn atoi_reads_the_largest_32_bit_number() {
    assert_eq!(atoi(b"4294967295"), Some(u32::MAX));
}

#[test]
fn atoi_wraps_beyond_32_bits() {
    assert_eq!(atoi(b"4294967296"), Some(0));
    assert_eq!(atoi(b"4294967297"), Some(1));
    // 10^20 mod 2^32
    assert_eq!(atoi(b"100000000000000000000"), Some(1661992960));
}

#[test]
fn itoa_writes_zero_and_the_largest_number() {
    assert_eq!(AsciiInt::from(0).as_str(), "0");
    assert_eq!(AsciiInt::from(u64::MAX).as_str(), "18446744073709551615");
    assert_eq!(AsciiInt::from(10).as_str(), "10");
}

#[test]
fn atoi_reads_back_what_itoa_writes() {
    for n in [0u64, 1, 9, 10, 99, 100, 65535, 999_999_999, 1_000_000_000, u32::MAX as u64] {
        let text = AsciiInt::from(n);
        assert_eq!(atoi(text.as_str().as_bytes()), Some(n as u32));
    }
    let text = AsciiInt::from(u32::MAX as u64 + 7);
    assert_eq!(atoi(text.as_str().as_bytes()), Some(6));
}
