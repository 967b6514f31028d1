//! The text that the `print` opcodes write: numerals, the words for the
//! booleans and for unit, and the form of a function pointer. Text is ASCII,
//! held as bytes.

use vstd::prelude::*;

verus! {

/// The ASCII digit for a value below sixteen, in lower case.
pub open spec fn digit(d: int) -> u8 {
    if d < 10 {
        ('0' as u8 + d) as u8
    } else {
        ('a' as u8 + d - 10) as u8
    }
}

/// The digits of `n` in the given radix, most significant first, without
/// leading zeros; zero is the single digit `0`.
pub open spec fn numeral(n: nat, radix: nat) -> Seq<u8>
    decreases n,
    via numeral_decreases
{
    if n < radix || radix < 2 {
        seq![digit(n as int)]
    } else {
        numeral(n / radix, radix).push(digit((n % radix) as int))
    }
}

#[via_fn]
proof fn numeral_decreases(n: nat, radix: nat) {
    assert(2 <= radix <= n ==> n / radix < n) by (nonlinear_arith);
}

/// The decimal form of an integer: a minus sign if it is negative, then the
/// digits of its magnitude.
pub open spec fn decimal(i: int) -> Seq<u8> {
    if i < 0 {
        seq!['-' as u8] + numeral((-i) as nat, 10)
    } else {
        numeral(i as nat, 10)
    }
}

/// The hexadecimal form of a natural number, in lower case, without prefix.
pub open spec fn hexadecimal(n: nat) -> Seq<u8> {
    numeral(n, 16)
}

/// The word `true` or the word `false`.
pub open spec fn boolean(b: bool) -> Seq<u8> {
    if b {
        seq!['t' as u8, 'r' as u8, 'u' as u8, 'e' as u8]
    } else {
        seq!['f' as u8, 'a' as u8, 'l' as u8, 's' as u8, 'e' as u8]
    }
}

/// The word `unit`.
pub open spec fn unit() -> Seq<u8> {
    seq!['u' as u8, 'n' as u8, 'i' as u8, 't' as u8]
}

/// The words that come before the address of a function: `<function at 0x`.
pub open spec fn function_prefix() -> Seq<u8> {
    seq![
        '<' as u8,
        'f' as u8,
        'u' as u8,
        'n' as u8,
        'c' as u8,
        't' as u8,
        'i' as u8,
        'o' as u8,
        'n' as u8,
        ' ' as u8,
        'a' as u8,
        't' as u8,
        ' ' as u8,
        '0' as u8,
        'x' as u8,
    ]
}

/// The form of a function pointer: `<function at 0x`, the index in
/// hexadecimal, `>`.
pub open spec fn function(ptr: nat) -> Seq<u8> {
    function_prefix() + hexadecimal(ptr) + seq!['>' as u8]
}

/// A text followed by a line feed.
pub open spec fn line(text: Seq<u8>) -> Seq<u8> {
    text.push('\n' as u8)
}

/// The first `n` items of `s` in reverse order: item `n - 1` first.
pub open spec fn reversed(s: Seq<u8>, n: int) -> Seq<u8> {
    Seq::new(n as nat, |i: int| s[n - 1 - i])
}

/// The ASCII digit for a value below sixteen.
fn digit_of(d: u64) -> (c: u8)
    requires
        d < 16,
    ensures
        c == digit(d as int),
{
    if d < 10 {
        48 + d as u8
    } else {
        87 + d as u8
    }
}

/// Appends the digits of `n` in the given radix.
pub fn write_numeral(out: &mut Vec<u8>, n: u64, radix: u64)
    requires
        2 <= radix <= 16,
    ensures
        final(out)@ == old(out)@ + numeral(n as nat, radix as nat),
{
    let mut digits: Vec<u8> = Vec::new();
    let mut rest = n;
    while rest >= radix
        invariant
            2 <= radix <= 16,
            numeral(n as nat, radix as nat) == numeral(rest as nat, radix as nat) + reversed(
                digits@,
                digits@.len() as int,
            ),
        decreases rest,
    {
        let d = digit_of(rest % radix);
        digits.push(d);
        rest = rest / radix;
    }
    out.push(digit_of(rest));
    let mut k: usize = digits.len();
    while k > 0
        invariant
            k <= digits@.len(),
            out@ == old(out)@ + numeral(rest as nat, radix as nat) + reversed(
                digits@,
                digits@.len() as int,
            ).take(digits@.len() - k),
        decreases k,
    {
        k -= 1;
        out.push(digits[k]);
    }
}

/// Appends the decimal form of `x`.
pub fn write_decimal(out: &mut Vec<u8>, x: i64)
    ensures
        final(out)@ == old(out)@ + decimal(x as int),
{
    if x < 0 {
        out.push(45);
        let magnitude: u64 = (-(x + 1)) as u64 + 1;
        write_numeral(out, magnitude, 10);
    } else {
        write_numeral(out, x as u64, 10);
    }
}

/// Appends the word for a boolean.
pub fn write_boolean(out: &mut Vec<u8>, b: bool)
    ensures
        final(out)@ == old(out)@ + boolean(b),
{
    if b {
        out.push(116);
        out.push(114);
        out.push(117);
        out.push(101);
    } else {
        out.push(102);
        out.push(97);
        out.push(108);
        out.push(115);
        out.push(101);
    }
}

/// Appends the word `unit`.
pub fn write_unit(out: &mut Vec<u8>)
    ensures
        final(out)@ == old(out)@ + unit(),
{
    out.push(117);
    out.push(110);
    out.push(105);
    out.push(116);
}

/// Appends the form of a function pointer.
pub fn write_function(out: &mut Vec<u8>, ptr: usize)
    ensures
        final(out)@ == old(out)@ + function(ptr as nat),
{
    out.push(60);
    out.push(102);
    out.push(117);
    out.push(110);
    out.push(99);
    out.push(116);
    out.push(105);
    out.push(111);
    out.push(110);
    out.push(32);
    out.push(97);
    out.push(116);
    out.push(32);
    out.push(48);
    out.push(120);
    write_numeral(out, ptr as u64, 16);
    out.push(62);
}

/// The characters that stand for the given ASCII bytes.
pub open spec fn letters(bytes: Seq<u8>) -> Seq<char> {
    Seq::new(bytes.len(), |i: int| bytes[i] as char)
}

/// Whether the byte is a decimal digit or the minus sign.
pub open spec fn is_numeral_byte(b: u8) -> bool {
    b == '-' as u8 || '0' as u8 <= b <= '9' as u8
}

/// A decimal numeral holds decimal digits only.
proof fn lemma_numeral_bytes(n: nat)
    ensures
        forall|i: int| 0 <= i < numeral(n, 10).len() ==> is_numeral_byte(#[trigger] numeral(n, 10)[i]),
    decreases n,
{
    let whole = numeral(n, 10);
    if n >= 10 {
        let init = numeral(n / 10, 10);
        lemma_numeral_bytes(n / 10);
        assert(whole == init.push(digit((n % 10) as int)));
        assert forall|i: int| 0 <= i < whole.len() implies is_numeral_byte(#[trigger] whole[i]) by {
            if i < init.len() {
                assert(whole[i] == init[i]);
            }
        }
    } else {
        assert(whole == seq![digit(n as int)]);
    }
}

/// The decimal form of an integer holds decimal digits and the minus sign
/// only.
proof fn lemma_decimal_bytes(i: int)
    ensures
        forall|k: int| 0 <= k < decimal(i).len() ==> is_numeral_byte(#[trigger] decimal(i)[k]),
{
    if i < 0 {
        lemma_numeral_bytes((-i) as nat);
    } else {
        lemma_numeral_bytes(i as nat);
    }
}

/// The text of one byte of a decimal numeral.
fn numeral_letter(b: u8) -> (s: &'static str)
    requires
        is_numeral_byte(b),
    ensures
        s@ == seq![b as char],
{
    proof {
        reveal_strlit("0");
        reveal_strlit("1");
        reveal_strlit("2");
        reveal_strlit("3");
        reveal_strlit("4");
        reveal_strlit("5");
        reveal_strlit("6");
        reveal_strlit("7");
        reveal_strlit("8");
        reveal_strlit("9");
        reveal_strlit("-");
    }
    let s = match b {
        48 => "0",
        49 => "1",
        50 => "2",
        51 => "3",
        52 => "4",
        53 => "5",
        54 => "6",
        55 => "7",
        56 => "8",
        57 => "9",
        _ => "-",
    };
    assert(s@ =~= seq![b as char]);
    s
}

/// Appends to a string the text of the bytes of a decimal numeral.
fn append_numeral_bytes(out: &mut String, bytes: &Vec<u8>)
    requires
        forall|i: int| 0 <= i < bytes@.len() ==> is_numeral_byte(#[trigger] bytes@[i]),
    ensures
        final(out)@ == old(out)@ + letters(bytes@),
{
    let mut i: usize = 0;
    assert(out@ =~= old(out)@ + letters(bytes@.take(0)));
    while i < bytes.len()
        invariant
            i <= bytes.len(),
            forall|i: int| 0 <= i < bytes@.len() ==> is_numeral_byte(#[trigger] bytes@[i]),
            out@ == old(out)@ + letters(bytes@.take(i as int)),
        decreases bytes.len() - i,
    {
        out.append(numeral_letter(bytes[i]));
        assert(letters(bytes@.take(i + 1)) =~= letters(bytes@.take(i as int)) + seq![
            bytes@[i as int] as char,
        ]);
        i += 1;
    }
    assert(bytes@.take(bytes@.len() as int) =~= bytes@);
}

/// Appends to a string the decimal form of `x`.
pub fn append_decimal(out: &mut String, x: i64)
    ensures
        final(out)@ == old(out)@ + letters(decimal(x as int)),
{
    let mut bytes: Vec<u8> = Vec::new();
    write_decimal(&mut bytes, x);
    proof {
        lemma_decimal_bytes(x as int);
        assert(bytes@ =~= decimal(x as int));
    }
    append_numeral_bytes(out, &bytes);
}

/// Appends to a string the decimal form of an index.
pub fn append_index(out: &mut String, n: usize)
    ensures
        final(out)@ == old(out)@ + letters(numeral(n as nat, 10)),
{
    let mut bytes: Vec<u8> = Vec::new();
    write_numeral(&mut bytes, n as u64, 10);
    proof {
        lemma_numeral_bytes(n as nat);
        assert(bytes@ =~= numeral(n as nat, 10));
    }
    append_numeral_bytes(out, &bytes);
}

} // verus!
