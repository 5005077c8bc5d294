use lading::text::alphabet_byte;
use lading::text::append;
use lading::text::copy_of;
use lading::text::push_i64;
use lading::text::push_u64;
use lading::text::push_zero_padded;

#[test]
fn decimal_of_unsigned() {
    let mut out = Vec::new();
    push_u64(&mut out, 0);
    out.push(b' ');
    push_u64(&mut out, 7);
    out.push(b' ');
    push_u64(&mut out, 1024);
    out.push(b' ');
    push_u64(&mut out, u64::MAX);
    assert_eq!(out, b"0 7 1024 18446744073709551615".to_vec());
}

#[test]
fn decimal_of_signed() {
    let mut out = Vec::new();
    push_i64(&mut out, -1);
    out.push(b' ');
    push_i64(&mut out, 0);
    out.push(b' ');
    push_i64(&mut out, i64::MIN);
    out.push(b' ');
    push_i64(&mut out, i64::MAX);
    assert_eq!(out, b"-1 0 -9223372036854775808 9223372036854775807".to_vec());
}

#[test]
fn zero_padding() {
    let mut out = Vec::new();
    push_zero_padded(&mut out, 0, 4);
    out.push(b' ');
    push_zero_padded(&mut out, 42, 4);
    out.push(b' ');
    push_zero_padded(&mut out, 9999, 4);
    out.push(b' ');
    push_zero_padded(&mut out, 12345, 4);
    out.push(b' ');
    push_zero_padded(&mut out, 5, 0);
    assert_eq!(out, b"0000 0042 9999 12345 5".to_vec());
}

#[test]
fn append_and_copy() {
    let mut out = b"ab".to_vec();
    append(&mut out, &b"cd".to_vec());
    append(&mut out, &Vec::new());
    assert_eq!(out, b"abcd".to_vec());
    assert_eq!(copy_of(&out), out);
}

#[test]
fn alphabet_is_digits_then_capitals_then_small_letters() {
    let all: Vec<u8> = (0..62).map(alphabet_byte).collect();
    assert_eq!(
        all,
        b"0123456789ABCDEFGHIJKLMNOPQRSTUVWXYZabcdefghijklmnopqrstuvwxyz".to_vec()
    );
}

#[test]
fn decimal_texts_have_at_most_twenty_bytes() {
    let mut out = Vec::new();
    push_u64(&mut out, u64::MAX);
    assert_eq!(out, b"18446744073709551615");
    assert_eq!(out.len(), 20);
    let mut out = Vec::new();
    push_i64(&mut out, i64::MIN);
    assert_eq!(out, b"-9223372036854775808");
    assert_eq!(out.len(), 20);
    let mut out = Vec::new();
    push_u64(&mut out, u64::from(u32::MAX));
    assert_eq!(out, b"4294967295");
    assert_eq!(out.len(), 10);
}
