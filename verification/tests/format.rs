use dog_core::dog_essentials::format_non_alloc::{
    i16_to_str, i32_to_str, i64_to_str, i64_to_str_base, i8_to_str, str_to_int, u16_to_str,
    u32_to_str, u64_to_str, u64_to_str_base, u8_to_str, FmtResult, FmtResultBase,
};
use dog_core::dog_essentials::pointer_ops::PointerTraverser;

#[test]
fn unsigned_numbers_in_base_10() {
    assert_eq!(u64_to_str(0).to_str(), "0");
    assert_eq!(u64_to_str(7).to_str(), "7");
    assert_eq!(u64_to_str(10).to_str(), "10");
    assert_eq!(u64_to_str(1234567890).to_str(), "1234567890");
    assert_eq!(u64_to_str(u64::MAX).to_str(), "18446744073709551615");
    assert_eq!(u32_to_str(u32::MAX).to_str(), "4294967295");
    assert_eq!(u16_to_str(u16::MAX).to_str(), "65535");
    assert_eq!(u8_to_str(255).to_str(), "255");
    assert_eq!(u8_to_str(0).to_str(), "0");
}

#[test]
fn signed_numbers_in_base_10() {
    assert_eq!(i64_to_str(0).to_str(), "0");
    assert_eq!(i64_to_str(42).to_str(), "42");
    assert_eq!(i64_to_str(-42).to_str(), "-42");
    assert_eq!(i64_to_str(i64::MAX).to_str(), "9223372036854775807");
    assert_eq!(i64_to_str(i64::MIN).to_str(), "-9223372036854775808");
    assert_eq!(i32_to_str(i32::MIN).to_str(), "-2147483648");
    assert_eq!(i32_to_str(100).to_str(), "100");
    assert_eq!(i16_to_str(-32768).to_str(), "-32768");
    assert_eq!(i8_to_str(-128).to_str(), "-128");
    assert_eq!(i8_to_str(127).to_str(), "127");
    assert_eq!(i8_to_str(-1).to_str(), "-1");
}

#[test]
fn numbers_in_other_bases() {
    assert_eq!(u64_to_str_base(0, 2).to_str(), "0");
    assert_eq!(u64_to_str_base(5, 2).to_str(), "101");
    assert_eq!(u64_to_str_base(255, 16).to_str(), "FF");
    assert_eq!(u64_to_str_base(0xdead_beef, 16).to_str(), "DEADBEEF");
    assert_eq!(u64_to_str_base(35, 36).to_str(), "Z");
    assert_eq!(u64_to_str_base(36, 36).to_str(), "10");
    assert_eq!(u64_to_str_base(u64::MAX, 2).to_str(), "1".repeat(64));
    assert_eq!(u64_to_str_base(u64::MAX, 16).to_str(), "FFFFFFFFFFFFFFFF");
    assert_eq!(u64_to_str_base(1234, 10).to_str(), "1234");
    assert_eq!(i64_to_str_base(255, 16).to_str(), "FF");
    assert_eq!(i64_to_str_base(i64::MAX, 2).to_str(), "1".repeat(63));
}

#[test]
fn bases_out_of_range_give_no_text() {
    assert_eq!(u64_to_str_base(5, 0).to_str(), "");
    assert_eq!(u64_to_str_base(5, 1).to_str(), "");
    assert_eq!(u64_to_str_base(5, 37).to_str(), "");
    assert_eq!(i64_to_str_base(5, 1).to_str(), "");
    assert_eq!(i64_to_str_base(5, 100).to_str(), "");
}

#[test]
fn negative_numbers_have_no_digits_in_other_bases() {
    assert_eq!(i64_to_str_base(-1, 16).to_str(), "");
    assert_eq!(i64_to_str_base(-255, 16).to_str(), "");
    assert_eq!(i64_to_str_base(-16, 16).to_str(), "");
    assert_eq!(i64_to_str_base(i64::MIN, 2).to_str(), "");
}

#[test]
fn text_is_built_from_its_end() {
    let mut text = FmtResult::new();
    assert_eq!(text.to_str(), "");
    assert_eq!(text.len(), 0);
    text.push(b'c');
    text.push(b'b');
    text.push(b'a');
    assert_eq!(text.to_str(), "abc");
    assert_eq!(text.len(), 3);
    for _ in 0..30 {
        text.push(b'x');
    }
    // a full buffer stays as it is
    assert_eq!(text.len(), 21);
    assert_eq!(text.to_str(), "xxxxxxxxxxxxxxxxxxabc");
    let mut long = FmtResultBase::new();
    for _ in 0..70 {
        long.push(b'1');
    }
    assert_eq!(long.len(), 65);
    assert_eq!(long.to_str(), "1".repeat(65));
}

#[test]
fn bytes_that_are_no_text_read_as_empty() {
    let mut text = FmtResult::new();
    text.push(0xff);
    text.push(b'a');
    assert_eq!(text.to_str(), "");
    let mut text = FmtResult::new();
    // the two bytes of one character, given in order
    text.push(0xa9);
    text.push(0xc3);
    assert_eq!(text.to_str(), "\u{e9}");
    let mut text = FmtResultBase::new();
    text.push(0x80);
    assert_eq!(text.to_str(), "");
}

#[test]
fn str_to_int_checks_the_form() {
    assert_eq!(str_to_int(""), Some(0));
    assert_eq!(str_to_int("0"), Some(0));
    assert_eq!(str_to_int("-"), Some(0));
    assert_eq!(str_to_int("123"), Some(0));
    assert_eq!(str_to_int("-45"), Some(0));
    assert_eq!(str_to_int("x45"), Some(0));
    assert_eq!(str_to_int("1.5"), None);
    assert_eq!(str_to_int("12a"), None);
    assert_eq!(str_to_int("1-2"), None);
    assert_eq!(str_to_int("1 2"), None);
    assert_eq!(str_to_int("1\u{663}"), None);
}

#[test]
fn traverser_reads_numbers_in_order() {
    let bytes: [u8; 10] = [0x72, 0xb5, 0x4a, 0x86, 1, 0, 0, 0, 9, 9];
    let mut traverser = PointerTraverser::new(&bytes);
    assert_eq!(traverser.read_and_advance(), Some(0x864ab572));
    assert_eq!(traverser.read_and_advance(), Some(1));
    assert_eq!(traverser.read_and_advance(), None);
    assert!(traverser.retreat_raw(4));
    assert_eq!(traverser.read_and_advance(), Some(1));
    assert!(!traverser.retreat_raw(9));
    assert!(traverser.retreat_raw(8));
    assert!(traverser.advance_raw(6));
    assert_eq!(traverser.read_and_advance(), Some(0x0909_0000));
    assert!(!traverser.advance_raw(1));
    assert!(traverser.advance_raw(0));
}
