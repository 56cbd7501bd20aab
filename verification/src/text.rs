//! Numbers and fields as console text.
use vstd::prelude::*;
use vstd::arithmetic::div_mod::*;
use vstd::string::*;

verus! {

/// The character of one digit, upper case above nine.
pub open spec fn digit_char(d: int) -> char {
    if d < 10 {
        (0x30 + d) as char
    } else {
        (0x37 + d) as char
    }
}

/// `n` written in `base` without leading zeros.
pub open spec fn digits(n: nat, base: nat) -> Seq<char>
    decreases n,
{
    if n < base || base < 2 {
        seq![digit_char(n as int)]
    } else {
        proof {
            lemma_div_decreases(n as int, base as int);
        }
        digits(n / base, base).push(digit_char((n % base) as int))
    }
}

/// A number is written in digits only.
pub proof fn law_digits_are_digits(n: nat, base: nat, i: int)
    requires
        2 <= base <= 16,
        0 <= i < digits(n, base).len(),
    ensures
        '0' <= digits(n, base)[i] <= '9' || 'A' <= digits(n, base)[i] <= 'F',
    decreases n,
{
    if n >= base {
        lemma_div_decreases(n as int, base as int);
        lemma_mod_bound(n as int, base as int);
        if i < digits(n / base, base).len() {
            law_digits_are_digits(n / base, base, i);
        }
    }
}

/// `n` in decimal.
pub open spec fn dec(n: nat) -> Seq<char> {
    digits(n, 10)
}

/// `v` in decimal, with a minus sign where it is negative.
pub open spec fn signed_dec(v: int) -> Seq<char> {
    if v < 0 {
        "-"@ + dec((-v) as nat)
    } else {
        dec(v as nat)
    }
}

/// `n` copies of `c`.
pub open spec fn run_of(c: char, n: int) -> Seq<char> {
    Seq::new(if n < 0 { 0 } else { n as nat }, |i: int| c)
}

/// `s` filled up with `fill` at its start to at least `width` characters.
pub open spec fn pad_start(s: Seq<char>, width: int, fill: char) -> Seq<char> {
    run_of(fill, width - s.len()) + s
}

/// `s` filled up with spaces at its end to at least `width` characters.
pub open spec fn pad_end(s: Seq<char>, width: int) -> Seq<char> {
    s + run_of(' ', width - s.len())
}

/// `n` in upper-case hexadecimal, zero-filled to `width` digits.
pub open spec fn hex(n: nat, width: int) -> Seq<char> {
    pad_start(digits(n, 16), width, '0')
}

/// The character of one hexadecimal digit, lower case.
pub open spec fn low_digit_char(d: int) -> char {
    if d < 10 {
        (0x30 + d) as char
    } else {
        (0x57 + d) as char
    }
}

/// A byte as two lower-case hexadecimal digits.
pub open spec fn low_hex(b: u8) -> Seq<char> {
    seq![low_digit_char((b / 16) as int), low_digit_char((b % 16) as int)]
}

/// `true` or `false` in words.
pub open spec fn bool_text(b: bool) -> Seq<char> {
    if b {
        "true"@
    } else {
        "false"@
    }
}

/// `String::push` of the standard library appends the one character that it
/// is given.
pub assume_specification[ String::push ](s: &mut String, c: char)
    ensures
        final(s)@ == old(s)@.push(c),
;

/// `core::str::from_utf8` of the standard library gives back the bytes as a
/// string slice exactly where they are well-formed UTF-8.
#[verifier::external_body]
pub(crate) fn utf8(bytes: &[u8]) -> (s: Option<&str>)
    ensures
        s is Some <==> vstd::utf8::valid_utf8(bytes@),
        s matches Some(t) ==> t.spec_bytes() == bytes@,
{
    core::str::from_utf8(bytes).ok()
}

/// Appends the digits of `n` in `base`.
pub fn push_digits(out: &mut String, n: u64, base: u64)
    requires
        2 <= base <= 16,
    ensures
        final(out)@ == old(out)@ + digits(n as nat, base as nat),
    decreases n,
{
    proof {
        lemma_mod_bound(n as int, base as int);
        if n >= base {
            lemma_div_decreases(n as int, base as int);
        } else {
            lemma_small_mod(n as nat, base as nat);
        }
    }
    if n >= base {
        push_digits(out, n / base, base);
    }
    let d: u8 = (n % base) as u8;
    let code: u8 = if d < 10 { 0x30 + d } else { 0x37 + d };
    out.push(code as char);
}

/// How many characters the digits of `n` fall short of `width`.
pub fn shortfall(n: u64, base: u64, width: usize) -> (k: usize)
    requires
        2 <= base <= 16,
    ensures
        k == if digits(n as nat, base as nat).len() < width {
            width - digits(n as nat, base as nat).len()
        } else {
            0
        },
    decreases n,
{
    if width == 0 {
        0
    } else if n < base {
        width - 1
    } else {
        proof {
            lemma_div_decreases(n as int, base as int);
        }
        shortfall(n / base, base, width - 1)
    }
}

/// Appends `n` copies of `c`.
pub fn push_run(out: &mut String, c: char, n: usize)
    ensures
        final(out)@ == old(out)@ + run_of(c, n as int),
{
    let mut i: usize = 0;
    while i < n
        invariant
            i <= n,
            out@ == old(out)@ + run_of(c, i as int),
        decreases n - i,
    {
        out.push(c);
        i += 1;
        assert(run_of(c, i as int) =~= run_of(c, i - 1).push(c));
    }
}

/// Appends `n` in decimal.
pub fn push_dec(out: &mut String, n: u64)
    ensures
        final(out)@ == old(out)@ + dec(n as nat),
{
    push_digits(out, n, 10);
}

/// Appends `v` in decimal.
pub fn push_signed(out: &mut String, v: i32)
    ensures
        final(out)@ == old(out)@ + signed_dec(v as int),
{
    if v < 0 {
        out.append("-");
        push_digits(out, (-(v as i64)) as u64, 10);
    } else {
        push_digits(out, v as u64, 10);
    }
}

/// Appends `n` in decimal, right-aligned in `width` columns.
pub fn push_right(out: &mut String, n: u64, width: usize)
    ensures
        final(out)@ == old(out)@ + pad_start(dec(n as nat), width as int, ' '),
{
    let k = shortfall(n, 10, width);
    push_run(out, ' ', k);
    push_digits(out, n, 10);
    assert(run_of(' ', k as int) =~= run_of(' ', width - dec(n as nat).len()));
}

/// Appends `n` in decimal, left-aligned in `width` columns.
pub fn push_left(out: &mut String, n: u64, width: usize)
    ensures
        final(out)@ == old(out)@ + pad_end(dec(n as nat), width as int),
{
    let k = shortfall(n, 10, width);
    push_digits(out, n, 10);
    push_run(out, ' ', k);
    assert(run_of(' ', k as int) =~= run_of(' ', width - dec(n as nat).len()));
}

/// Appends `n` in upper-case hexadecimal, zero-filled to `width` digits.
pub fn push_hex(out: &mut String, n: u64, width: usize)
    ensures
        final(out)@ == old(out)@ + hex(n as nat, width as int),
{
    let k = shortfall(n, 16, width);
    push_run(out, '0', k);
    push_digits(out, n, 16);
    assert(run_of('0', k as int) =~= run_of('0', width - digits(n as nat, 16).len()));
}

fn low_digit(d: u8) -> (c: char)
    requires
        d < 16,
    ensures
        c == low_digit_char(d as int),
{
    let code: u8 = if d < 10 { 0x30 + d } else { 0x57 + d };
    code as char
}

/// Appends a byte as two lower-case hexadecimal digits.
pub fn push_low_hex(out: &mut String, b: u8)
    ensures
        final(out)@ == old(out)@ + low_hex(b),
{
    out.push(low_digit(b / 16));
    out.push(low_digit(b % 16));
}

/// Appends `true` or `false`.
pub fn push_bool(out: &mut String, b: bool)
    ensures
        final(out)@ == old(out)@ + bool_text(b),
{
    if b {
        out.append("true");
    } else {
        out.append("false");
    }
}

/// The number of bytes in front of the first NUL.
pub open spec fn nul_len(b: Seq<u8>) -> nat
    decreases b.len(),
{
    if b.len() == 0 || b[0] == 0 {
        0
    } else {
        1 + nul_len(b.skip(1))
    }
}

/// What stands in front of the first NUL.
pub open spec fn before_nul(b: Seq<u8>) -> Seq<u8> {
    b.take(nul_len(b) as int)
}

/// `b` decoded as UTF-8, or `otherwise` where it is not well-formed.
pub open spec fn decoded_or(b: Seq<u8>, otherwise: Seq<char>) -> Seq<char> {
    if vstd::utf8::valid_utf8(b) {
        vstd::utf8::decode_utf8(b)
    } else {
        otherwise
    }
}

/// The NUL length is the index of the first NUL, or the whole length.
pub proof fn law_nul_len(b: Seq<u8>, n: nat)
    ensures
        nul_len(b) == n <==> {
            &&& n <= b.len()
            &&& forall|i: int| 0 <= i < n ==> b[i] != 0
            &&& n < b.len() ==> b[n as int] == 0
        },
    decreases b.len(),
{
    if b.len() == 0 || b[0] == 0 {
    } else {
        let rest = b.skip(1);
        if n > 0 {
            law_nul_len(rest, (n - 1) as nat);
            assert forall|i: int| 0 <= i < rest.len() implies rest[i] == b[i + 1] by {}
            if n <= b.len() && forall|i: int| 0 <= i < n - 1 ==> rest[i] != 0 {
                assert forall|i: int| 0 <= i < n implies b[i] != 0 by {
                    if i > 0 {
                        assert(rest[i - 1] == b[i]);
                    }
                }
            }
        }
    }
}

/// The number of bytes in front of the first NUL.
pub fn nul_position(b: &[u8]) -> (n: usize)
    ensures
        n == nul_len(b@),
        n <= b@.len(),
{
    let mut n: usize = 0;
    while n < b.len() && b[n] != 0
        invariant
            n <= b@.len(),
            forall|i: int| 0 <= i < n ==> b@[i] != 0,
        decreases b@.len() - n,
    {
        n += 1;
    }
    proof {
        law_nul_len(b@, n as nat);
    }
    n
}

/// The text in front of the first NUL, or `otherwise` where that is no UTF-8.
pub fn decode_or<'a>(b: &'a [u8], otherwise: &'a str) -> (s: &'a str)
    ensures
        s@ == decoded_or(before_nul(b@), otherwise@),
        vstd::utf8::valid_utf8(before_nul(b@)) ==> s.spec_bytes() == before_nul(b@),
{
    let n = nul_position(b);
    let head = &b[0..n];
    proof {
        assert(head@ =~= before_nul(b@));
    }
    match utf8(head) {
        Some(s) => {
            proof {
                vstd::utf8::encode_utf8_decode_utf8(s@);
            }
            s
        },
        None => otherwise,
    }
}

/// Whether two strings hold the same characters.
pub fn same_text(a: &str, b: &str) -> (r: bool)
    ensures
        r <==> a@ == b@,
{
    let x = a.as_bytes();
    let y = b.as_bytes();
    proof {
        vstd::utf8::encode_utf8_decode_utf8(a@);
        vstd::utf8::encode_utf8_decode_utf8(b@);
    }
    same_bytes(x, y)
}

/// Whether two byte strings are equal.
pub fn same_bytes(x: &[u8], y: &[u8]) -> (r: bool)
    ensures
        r <==> x@ == y@,
{
    if x.len() != y.len() {
        return false;
    }
    let mut i: usize = 0;
    while i < x.len()
        invariant
            i <= x@.len(),
            x@.len() == y@.len(),
            forall|j: int| 0 <= j < i ==> x@[j] == y@[j],
        decreases x@.len() - i,
    {
        if x[i] != y[i] {
            return false;
        }
        i += 1;
    }
    assert(x@ =~= y@);
    true
}

} // verus!
