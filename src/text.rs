//! Rendering of unsigned integers as text.
use vstd::prelude::*;

verus! {

/// The character of digit `d` (lower-case letters above nine).
pub open spec fn digit_char(d: nat) -> char {
    if d == 0 { '0' }
    else if d == 1 { '1' }
    else if d == 2 { '2' }
    else if d == 3 { '3' }
    else if d == 4 { '4' }
    else if d == 5 { '5' }
    else if d == 6 { '6' }
    else if d == 7 { '7' }
    else if d == 8 { '8' }
    else if d == 9 { '9' }
    else if d == 10 { 'a' }
    else if d == 11 { 'b' }
    else if d == 12 { 'c' }
    else if d == 13 { 'd' }
    else if d == 14 { 'e' }
    else { 'f' }
}

/// The digits of `n` in base `base`, most significant first, without leading zeros.
pub open spec fn digits(n: nat, base: nat) -> Seq<char>
    decreases n via digits_decreases
{
    if base < 2 || n < base {
        seq![digit_char(n)]
    } else {
        digits(n / base, base).push(digit_char(n % base))
    }
}

#[via_fn]
proof fn digits_decreases(n: nat, base: nat) {
    if !(base < 2 || n < base) {
        lemma_quotient_smaller(n, base);
    }
}

/// Dividing by a base of at least two makes a positive number smaller.
proof fn lemma_quotient_smaller(n: nat, base: nat)
    requires
        base >= 2,
        n >= base,
    ensures
        n / base < n,
{
    assert(n / base < n) by (nonlinear_arith)
        requires
            base >= 2,
            n >= base,
    ;
}

/// `n` in decimal.
pub open spec fn decimal(n: nat) -> Seq<char> {
    digits(n, 10)
}

/// `n` in lower-case hexadecimal, without a prefix.
pub open spec fn hex(n: nat) -> Seq<char> {
    digits(n, 16)
}

/// `s` right-aligned in a field of `width` characters, padded with spaces.
pub open spec fn pad_left(s: Seq<char>, width: nat) -> Seq<char> {
    if s.len() < width {
        Seq::new((width - s.len()) as nat, |i: int| ' ') + s
    } else {
        s
    }
}

fn digit_str(d: u64) -> (r: &'static str)
    requires
        d < 16,
    ensures
        r@ == seq![digit_char(d as nat)],
{
    proof {
        reveal_strlit("0");
        reveal_strlit("1");
        reveal_strlit("2");
        reveal_strlit("3");
        reveal_strlit("4");
        reveal_strlit("5");
        reveal_strlit("6");
        reveal_strlit("7");
        reveal_strlit("8");
        reveal_strlit("9");
        reveal_strlit("a");
        reveal_strlit("b");
        reveal_strlit("c");
        reveal_strlit("d");
        reveal_strlit("e");
        reveal_strlit("f");
    }
    let r = if d == 0 { "0" }
    else if d == 1 { "1" }
    else if d == 2 { "2" }
    else if d == 3 { "3" }
    else if d == 4 { "4" }
    else if d == 5 { "5" }
    else if d == 6 { "6" }
    else if d == 7 { "7" }
    else if d == 8 { "8" }
    else if d == 9 { "9" }
    else if d == 10 { "a" }
    else if d == 11 { "b" }
    else if d == 12 { "c" }
    else if d == 13 { "d" }
    else if d == 14 { "e" }
    else { "f" };
    assert(r@ =~= seq![digit_char(d as nat)]);
    r
}

/// Appends the digits of `n` in base `base` to `out`.
pub fn push_digits(out: &mut String, n: u64, base: u64)
    requires
        2 <= base <= 16,
    ensures
        final(out)@ == old(out)@ + digits(n as nat, base as nat),
    decreases n,
{
    if n < base {
        out.append(digit_str(n));
    } else {
        proof { lemma_quotient_smaller(n as nat, base as nat); }
        push_digits(out, n / base, base);
        out.append(digit_str(n % base));
    }
}

/// Appends `n` in decimal to `out`.
pub fn push_decimal(out: &mut String, n: u64)
    ensures
        final(out)@ == old(out)@ + decimal(n as nat),
{
    push_digits(out, n, 10);
}

/// Appends `n` in lower-case hexadecimal to `out`.
pub fn push_hex(out: &mut String, n: u64)
    ensures
        final(out)@ == old(out)@ + hex(n as nat),
{
    push_digits(out, n, 16);
}

/// Appends `n` in decimal, right-aligned in `width` characters, to `out`.
pub fn push_decimal_padded(out: &mut String, n: u64, width: usize)
    ensures
        final(out)@ == old(out)@ + pad_left(decimal(n as nat), width as nat),
{
    let mut num = String::new();
    push_decimal(&mut num, n);
    let len = num.as_str().unicode_len();
    let mut pad: usize = 0;
    let ghost start = out@;
    if len < width {
        while pad < width - len
            invariant
                len == num@.len(),
                len < width,
                pad <= width - len,
                out@ == start + Seq::new(pad as nat, |i: int| ' '),
            decreases width - len - pad,
        {
            out.append(" ");
            proof { reveal_strlit(" "); }
            pad = pad + 1;
            assert(out@ =~= start + Seq::new(pad as nat, |i: int| ' '));
        }
    }
    out.append(num.as_str());
    assert(out@ =~= start + pad_left(decimal(n as nat), width as nat));
}

} // verus!
