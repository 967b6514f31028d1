//! The text of numerals and of the words that `print` writes.

use pijama_codegen::text::{
    append_decimal, append_index, write_boolean, write_decimal, write_function, write_numeral,
    write_unit,
};

fn decimal(x: i64) -> String {
    let mut out = Vec::new();
    write_decimal(&mut out, x);
    String::from_utf8(out).expect("a numeral is text")
}

fn numeral(n: u64, radix: u64) -> String {
    let mut out = Vec::new();
    write_numeral(&mut out, n, radix);
    String::from_utf8(out).expect("a numeral is text")
}

#[test]
fn decimal_numerals() {
    assert_eq!(decimal(0), "0");
    assert_eq!(decimal(7), "7");
    assert_eq!(decimal(10), "10");
    assert_eq!(decimal(-1), "-1");
    assert_eq!(decimal(3628800), "3628800");
    assert_eq!(decimal(i64::MAX), "9223372036854775807");
    assert_eq!(decimal(i64::MIN), "-9223372036854775808");
    for x in [-1000, -999, -11, -10, -9, 9, 10, 11, 99, 100, 101, 123456789] {
        assert_eq!(decimal(x), x.to_string());
    }
}

#[test]
fn numerals_in_other_radices() {
    assert_eq!(numeral(0, 16), "0");
    assert_eq!(numeral(9, 16), "9");
    assert_eq!(numeral(10, 16), "a");
    assert_eq!(numeral(15, 16), "f");
    assert_eq!(numeral(16, 16), "10");
    assert_eq!(numeral(255, 16), "ff");
    assert_eq!(numeral(0xdead_beef, 16), "deadbeef");
    assert_eq!(numeral(u64::MAX, 16), "ffffffffffffffff");
    assert_eq!(numeral(u64::MAX, 10), "18446744073709551615");
    assert_eq!(numeral(5, 2), "101");
    assert_eq!(numeral(64, 8), "100");
}

#[test]
fn numerals_are_appended() {
    let mut out = b"n = ".to_vec();
    write_decimal(&mut out, -42);
    write_numeral(&mut out, 7, 10);
    assert_eq!(out, b"n = -427");
}

#[test]
fn words() {
    let mut out = Vec::new();
    write_boolean(&mut out, true);
    out.push(b' ');
    write_boolean(&mut out, false);
    out.push(b' ');
    write_unit(&mut out);
    assert_eq!(out, b"true false unit");
}

#[test]
fn function_pointers() {
    let mut out = Vec::new();
    write_function(&mut out, 0);
    write_function(&mut out, 26);
    assert_eq!(out, b"<function at 0x0><function at 0x1a>");
}

#[test]
fn numerals_are_appended_to_strings() {
    let mut out = String::from("n = ");
    append_decimal(&mut out, -42);
    out.push(' ');
    append_decimal(&mut out, 0);
    out.push(' ');
    append_decimal(&mut out, i64::MIN);
    out.push(' ');
    append_index(&mut out, 0);
    out.push(' ');
    append_index(&mut out, 1234567890);
    assert_eq!(out, "n = -42 0 -9223372036854775808 0 1234567890");
}
