//! Small verified helpers for building strings.

use vstd::prelude::*;

verus! {

/// Appends one character to `s` (`String::push`).
#[verifier::external_body]
pub(crate) fn push_char(s: &mut String, c: char)
    ensures
        final(s)@ == old(s)@.push(c),
{
    s.push(c);
}


/// An owned copy of `s`.
pub(crate) fn owned(s: &str) -> (res: String)
    ensures
        res@ == s@,
{
    broadcast use vstd::string::group_string_axioms;

    s.to_string()
}


/// The decimal digit `d` (0 to 9).
pub open spec fn decimal_digit(d: int) -> char {
    seq!['0', '1', '2', '3', '4', '5', '6', '7', '8', '9'][d]
}

/// The decimal digits of `n`, most significant first, with no leading zero.
pub open spec fn decimal_digits(n: nat) -> Seq<char>
    decreases n,
{
    if n < 10 {
        seq![decimal_digit(n as int)]
    } else {
        decimal_digits(n / 10).push(decimal_digit((n % 10) as int))
    }
}

/// The decimal representation of `n`, with a leading `-` when it is negative.
pub open spec fn decimal(n: int) -> Seq<char> {
    if n < 0 {
        seq!['-'] + decimal_digits((-n) as nat)
    } else {
        decimal_digits(n as nat)
    }
}

/// The lowercase hexadecimal digit `d` (0 to 15).
pub open spec fn hex_digit(d: int) -> char {
    seq!['0', '1', '2', '3', '4', '5', '6', '7', '8', '9', 'a', 'b', 'c', 'd', 'e', 'f'][d]
}

/// `bytes` in lowercase hexadecimal, two digits per byte, high nibble first.
pub open spec fn lower_hex(bytes: Seq<u8>) -> Seq<char>
    decreases bytes.len(),
{
    if bytes.len() == 0 {
        Seq::empty()
    } else {
        lower_hex(bytes.drop_last()) + seq![
            hex_digit(bytes.last() as int / 16),
            hex_digit(bytes.last() as int % 16),
        ]
    }
}

/// The decimal digit for `d` (0 to 9).
fn digit_char(d: u64) -> (c: char)
    requires
        d < 10,
    ensures
        c == decimal_digit(d as int),
{
    match d {
        0 => '0',
        1 => '1',
        2 => '2',
        3 => '3',
        4 => '4',
        5 => '5',
        6 => '6',
        7 => '7',
        8 => '8',
        _ => '9',
    }
}

/// Appends the decimal digits of `n`.
fn push_decimal_digits(out: &mut String, n: u64)
    ensures
        final(out)@ == old(out)@ + decimal_digits(n as nat),
    decreases n,
{
    if n >= 10 {
        push_decimal_digits(out, n / 10);
    }
    push_char(out, digit_char(n % 10));
    proof {
        if n >= 10 {
            assert(decimal_digits(n as nat) == decimal_digits((n / 10) as nat).push(
                decimal_digit((n % 10) as int),
            ));
        }
        assert(out@ =~= old(out)@ + decimal_digits(n as nat));
    }
}

/// The decimal representation of `x`, as `i64::to_string` gives it.
pub fn i64_to_decimal(x: i64) -> (res: String)
    ensures
        res@ == decimal(x as int),
{
    let mut out = String::new();
    if x < 0 {
        push_char(&mut out, '-');
        let magnitude: u64 = (0i128 - (x as i128)) as u64;
        push_decimal_digits(&mut out, magnitude);
    } else {
        push_decimal_digits(&mut out, x as u64);
    }
    proof {
        assert(out@ =~= decimal(x as int));
    }
    out
}

/// `hex::encode`: `bytes` in lowercase hexadecimal, two digits per byte.
#[verifier::external_body]
pub(crate) fn hex_encode(bytes: &[u8]) -> (res: String)
    ensures
        res@ == lower_hex(bytes@),
{
    hex::encode(bytes)
}

/// The lowercase hexadecimal form of `bytes` has two digits per byte, each
/// a digit or a letter from `a` to `f`.
pub proof fn lemma_lower_hex(bytes: Seq<u8>)
    ensures
        lower_hex(bytes).len() == 2 * bytes.len(),
        forall|i: int|
            0 <= i < lower_hex(bytes).len() ==> ('0' <= #[trigger] lower_hex(bytes)[i] <= '9'
                || 'a' <= lower_hex(bytes)[i] <= 'f'),
    decreases bytes.len(),
{
    if bytes.len() > 0 {
        lemma_lower_hex(bytes.drop_last());
        let hi = bytes.last() as int / 16;
        let lo = bytes.last() as int % 16;
        assert(0 <= hi < 16 && 0 <= lo < 16);
        let digits = seq!['0', '1', '2', '3', '4', '5', '6', '7', '8', '9', 'a', 'b', 'c', 'd', 'e', 'f'];
        assert(forall|d: int| 0 <= d < 16 ==> ('0' <= #[trigger] digits[d] <= '9' || 'a' <= digits[d] <= 'f'));
    }
}

/// The decimal representation is made of digits and a leading `-` at most.
pub proof fn lemma_decimal_chars(n: int)
    ensures
        forall|i: int|
            0 <= i < decimal(n).len() ==> ('0' <= #[trigger] decimal(n)[i] <= '9' || decimal(n)[i]
                == '-'),
{
    if n < 0 {
        lemma_decimal_digits((-n) as nat);
    } else {
        lemma_decimal_digits(n as nat);
    }
}

/// Decimal digits are digits.
pub proof fn lemma_decimal_digits(n: nat)
    ensures
        forall|i: int|
            0 <= i < decimal_digits(n).len() ==> '0' <= #[trigger] decimal_digits(n)[i] <= '9',
    decreases n,
{
    let digits = seq!['0', '1', '2', '3', '4', '5', '6', '7', '8', '9'];
    assert(forall|d: int| 0 <= d < 10 ==> '0' <= #[trigger] digits[d] <= '9');
    if n >= 10 {
        lemma_decimal_digits(n / 10);
        let d = (n % 10) as int;
        assert(0 <= d < 10);
        assert('0' <= digits[d] <= '9');
        let front = decimal_digits(n / 10);
        assert forall|i: int| 0 <= i < decimal_digits(n).len() implies '0' <= #[trigger] decimal_digits(n)[i] <= '9' by {
            if i < front.len() {
                assert(decimal_digits(n)[i] == front[i]);
            }
        }
    } else {
        assert(0 <= n < 10);
        assert('0' <= digits[n as int] <= '9');
    }
}


/// The number spelled by the decimal digits `s`, most significant first.
pub open spec fn digits_value(s: Seq<char>) -> int
    decreases s.len(),
{
    if s.len() == 0 {
        0
    } else {
        digits_value(s.drop_last()) * 10 + (s.last() as int - '0' as int)
    }
}

/// The decimal digits of `n` spell `n`, and the first is not `0` unless `n`
/// is zero.
pub proof fn lemma_decimal_digits_value(n: nat)
    ensures
        decimal_digits(n).len() >= 1,
        digits_value(decimal_digits(n)) == n,
        n >= 1 ==> decimal_digits(n)[0] != '0',
    decreases n,
{
    let digits = seq!['0', '1', '2', '3', '4', '5', '6', '7', '8', '9'];
    assert(forall|d: int| 0 <= d < 10 ==> #[trigger] digits[d] as int - '0' as int == d);
    if n >= 10 {
        lemma_decimal_digits_value(n / 10);
        let front = decimal_digits(n / 10);
        assert(decimal_digits(n).drop_last() =~= front);
        assert(decimal_digits(n)[0] == front[0]);
        let d = (n % 10) as int;
        assert(decimal_digits(n).last() == digits[d]);
        assert(digits[d] as int - '0' as int == d);
        assert((n / 10) * 10 + n % 10 == n) by (nonlinear_arith);
        assert(digits_value(decimal_digits(n)) == digits_value(front) * 10 + d);
    } else {
        let s = decimal_digits(n);
        assert(s =~= seq![digits[n as int]]);
        assert(s.drop_last() =~= Seq::<char>::empty());
        assert(digits_value(s.drop_last()) == 0);
        assert(digits[n as int] as int - '0' as int == n);
        assert(digits_value(s) == digits_value(s.drop_last()) * 10 + (s.last() as int - '0' as int));
    }
}

/// `i64_to_decimal` spells its argument: digits whose value is the number's
/// magnitude, with no leading zero, after a `-` exactly when it is negative.
pub proof fn lemma_i64_to_decimal_value(x: i64, res: String)
    requires
        call_ensures(i64_to_decimal, (x,), res),
    ensures
        x >= 0 ==> res@.len() >= 1 && digits_value(res@) == x && (x >= 1 ==> res@[0] != '0'),
        x < 0 ==> res@.len() >= 2 && res@[0] == '-' && digits_value(res@.skip(1)) == -x
            && res@[1] != '0',
{
    if x >= 0 {
        lemma_decimal_digits_value(x as nat);
    } else {
        lemma_decimal_digits_value((-x) as nat);
        assert(res@.skip(1) =~= decimal_digits((-x) as nat));
    }
}

} // verus!
