//! Recursive-descent parsing over byte strings.
//!
//! Every parser takes the remaining input and returns either the number of
//! bytes it consumed together with the parsed value, or a [`ParseError`].
//! Each one is proved equal to a spec-level grammar function, so a
//! contract's reader can evaluate the grammar on any input of interest.
//!
//! Streaming semantics: a parser answers [`ParseError::Incomplete`] when
//! more input could still let it succeed, and a syntax error otherwise.

use vstd::prelude::*;
use vstd::slice::slice_subrange;

pub mod date;
pub mod datetime;
pub mod time;

verus! {

/// Why a parse did not produce a value.
#[derive(Eq, PartialEq, Clone, Copy, Debug)]
pub enum ParseError {
    /// The input ended before the grammar could decide.
    Incomplete,
    /// A byte did not match the expected literal or digit pattern.
    Mismatch,
    /// A syntactically well-formed field lay outside its domain.
    OutOfRange,
    /// A decimal fraction carried more digits than the supported
    /// precision; alternation does not recover from this error.
    TooPrecise,
}

/// Whether alternation tries its next branch after this error.
pub open spec fn alt_continues(e: ParseError) -> bool {
    e == ParseError::Mismatch || e == ParseError::OutOfRange
}

/// Cuts a branch off from further input: an incomplete parse becomes a
/// plain mismatch.
pub open spec fn sp_complete<T>(r: Result<(int, T), ParseError>) -> Result<
    (int, T),
    ParseError,
> {
    if r == Err::<(int, T), ParseError>(ParseError::Incomplete) {
        Err(ParseError::Mismatch)
    } else {
        r
    }
}

/// Relates an executable parse result to its spec-level counterpart.
pub open spec fn lifts<T>(
    r: Result<(usize, T), ParseError>,
    s: Result<(int, T), ParseError>,
) -> bool {
    match (r, s) {
        (Ok((n, v)), Ok((m, w))) => n as int == m && v == w,
        (Err(e), Err(f)) => e == f,
        _ => false,
    }
}

/// An ASCII decimal digit.
pub open spec fn is_digit_byte(b: u8) -> bool {
    48 <= b && b <= 57
}

/// Every byte of `s` is an ASCII digit.
pub open spec fn all_digits(s: Seq<u8>) -> bool {
    forall|k: int| 0 <= k < s.len() ==> is_digit_byte(#[trigger] s[k])
}

/// The number a digit string denotes, most significant digit first.
pub open spec fn digits_val(s: Seq<u8>) -> int
    decreases s.len(),
{
    if s.len() == 0 {
        0
    } else {
        digits_val(s.drop_last()) * 10 + (s.last() - 48)
    }
}

/// Ten to the power `e` (one for `e <= 0`).
pub open spec fn p10(e: int) -> int
    decreases e,
{
    if e <= 0 {
        1
    } else {
        10 * p10(e - 1)
    }
}

/// The index of the first non-digit byte at or after `k` (or the input's
/// length if digits run to its end).
pub open spec fn digit_run(s: Seq<u8>, k: int) -> int
    decreases s.len() - k,
{
    if k >= s.len() || !is_digit_byte(s[k]) {
        k
    } else {
        digit_run(s, k + 1)
    }
}

/// Powers of ten are positive.
pub proof fn lemma_p10_pos(e: int)
    ensures
        p10(e) >= 1,
    decreases e,
{
    if e > 0 {
        lemma_p10_pos(e - 1);
    }
}

/// The small powers of ten, written out for the proofs that bound
/// machine arithmetic.
pub proof fn lemma_p10_values()
    ensures
        p10(1) == 10,
        p10(2) == 100,
        p10(3) == 1000,
        p10(4) == 10_000,
        p10(9) == 1_000_000_000,
        p10(19) == 10_000_000_000_000_000_000,
{
    assert(p10(0) == 1);
    assert(p10(1) == 10);
    assert(p10(2) == 100);
    assert(p10(3) == 1000);
    assert(p10(4) == 10000);
    assert(p10(5) == 100000);
    assert(p10(6) == 1000000);
    assert(p10(7) == 10000000);
    assert(p10(8) == 100000000);
    assert(p10(9) == 1000000000);
    assert(p10(10) == 10000000000);
    assert(p10(11) == 100000000000);
    assert(p10(12) == 1000000000000);
    assert(p10(13) == 10000000000000);
    assert(p10(14) == 100000000000000);
    assert(p10(15) == 1000000000000000);
    assert(p10(16) == 10000000000000000);
    assert(p10(17) == 100000000000000000);
    assert(p10(18) == 1000000000000000000);
    assert(p10(19) == 10000000000000000000);
}

/// Powers of ten are monotone in the exponent.
pub proof fn lemma_p10_mono(a: int, b: int)
    requires
        a <= b,
    ensures
        p10(a) <= p10(b),
    decreases b - a,
{
    if a < b {
        lemma_p10_mono(a, b - 1);
        lemma_p10_pos(b - 1);
    }
}

/// Powers of ten multiply by adding exponents.
pub proof fn lemma_p10_adds(a: int, b: int)
    requires
        a >= 0,
        b >= 0,
    ensures
        p10(a + b) == p10(a) * p10(b),
    decreases a,
{
    if a > 0 {
        lemma_p10_adds(a - 1, b);
        assert(p10(a + b) == 10 * p10(a - 1 + b));
        assert(10 * (p10(a - 1) * p10(b)) == (10 * p10(a - 1)) * p10(b))
            by (nonlinear_arith);
    }
}

/// A digit string of length `n` denotes a number below ten to the `n`.
pub proof fn lemma_digits_val_bound(s: Seq<u8>)
    requires
        all_digits(s),
    ensures
        0 <= digits_val(s) < p10(s.len() as int),
    decreases s.len(),
{
    if s.len() > 0 {
        assert(all_digits(s.drop_last())) by {
            assert(forall|k: int|
                0 <= k < s.len() - 1 ==> s.drop_last()[k] == #[trigger] s[k]);
        }
        lemma_digits_val_bound(s.drop_last());
        assert(is_digit_byte(s.last()));
        assert(p10(s.len() as int) == 10 * p10(s.len() - 1));
    }
}

/// Accumulates the number a digit string denotes.
pub fn buf_to_int(buf: &[u8]) -> (r: u32)
    requires
        all_digits(buf@),
        buf@.len() <= 9,
    ensures
        r == digits_val(buf@),
{
    let mut sum: u32 = 0;
    let mut j: usize = 0;
    proof {
        assert(buf@.take(0) =~= Seq::<u8>::empty());
    }
    while j < buf.len()
        invariant
            all_digits(buf@),
            buf@.len() <= 9,
            0 <= j <= buf@.len(),
            sum == digits_val(buf@.take(j as int)),
            sum < p10(j as int),
        decreases buf@.len() - j,
    {
        let d = buf[j];
        proof {
            assert(is_digit_byte(buf@[j as int]));
            assert(buf@.take(j + 1).drop_last() =~= buf@.take(j as int));
            assert(buf@.take(j + 1).last() == buf@[j as int]);
            lemma_p10_mono(j + 1, 9);
            lemma_p10_values();
        }
        sum = sum * 10 + (d - 48) as u32;
        j = j + 1;
    }
    proof {
        assert(buf@.take(buf@.len() as int) =~= buf@);
    }
    sum
}

/// Ten to the power `e`, for exponents whose power fits in a u64.
fn pow10_u64(e: u8) -> (r: u64)
    requires
        e <= 19,
    ensures
        r == p10(e as int),
{
    let mut r: u64 = 1;
    let mut j: u8 = 0;
    while j < e
        invariant
            0 <= j <= e <= 19,
            r == p10(j as int),
        decreases e - j,
    {
        proof {
            lemma_p10_mono(j + 1, 19);
            lemma_p10_values();
        }
        r = r * 10;
        j = j + 1;
    }
    r
}

/// Reads a digit string as a decimal fraction: the result is the numerator
/// of ".`buf`" over ten to the `precision + 1`.
pub fn buf_to_frac_int(buf: &[u8], precision: u8) -> (r: u64)
    requires
        all_digits(buf@),
        buf@.len() <= precision + 1,
        precision <= 18,
    ensures
        r == digits_val(buf@) * p10(precision + 1 - buf@.len()),
{
    let mut sum: u64 = 0;
    let mut j: usize = 0;
    proof {
        assert(buf@.take(0) =~= Seq::<u8>::empty());
    }
    while j < buf.len()
        invariant
            all_digits(buf@),
            buf@.len() <= precision + 1,
            precision <= 18,
            0 <= j <= buf@.len(),
            sum == digits_val(buf@.take(j as int)),
            sum < p10(j as int),
        decreases buf@.len() - j,
    {
        let d = buf[j];
        proof {
            assert(is_digit_byte(buf@[j as int]));
            assert(buf@.take(j + 1).drop_last() =~= buf@.take(j as int));
            assert(buf@.take(j + 1).last() == buf@[j as int]);
            lemma_p10_mono(j + 1, 19);
            lemma_p10_values();
        }
        sum = sum * 10 + (d - 48) as u64;
        j = j + 1;
    }
    proof {
        assert(buf@.take(buf@.len() as int) =~= buf@);
    }
    let shift: u8 = precision + 1 - buf.len() as u8;
    let mult = pow10_u64(shift);
    proof {
        lemma_digits_val_bound(buf@);
        lemma_p10_pos(shift as int);
        lemma_p10_adds(buf@.len() as int, shift as int);
        assert(sum * mult < p10(buf@.len() as int) * p10(shift as int)) by (nonlinear_arith)
            requires
                sum < p10(buf@.len() as int),
                mult == p10(shift as int),
                mult >= 1,
                sum >= 0,
        ;
        lemma_p10_mono(buf@.len() + shift, 19);
        lemma_p10_values();
    }
    sum * mult
}

/// Reads a fraction-of-a-second digit string as nanoseconds.
pub fn sec_frac_buf_to_nanos(buf: &[u8]) -> (r: u32)
    requires
        all_digits(buf@),
        buf@.len() <= 9,
    ensures
        r == digits_val(buf@) * p10(9 - buf@.len()),
{
    let wide = buf_to_frac_int(buf, 8);
    proof {
        lemma_digits_val_bound(buf@);
        lemma_p10_pos(9 - buf@.len());
        lemma_p10_adds(buf@.len() as int, 9 - buf@.len());
        assert(digits_val(buf@) * p10(9 - buf@.len()) < p10(buf@.len() as int) * p10(
            9 - buf@.len(),
        )) by (nonlinear_arith)
            requires
                digits_val(buf@) < p10(buf@.len() as int),
                p10(9 - buf@.len()) >= 1,
                digits_val(buf@) >= 0,
        ;
        lemma_p10_values();
    }
    wide as u32
}

/// Exactly `n` ASCII digits, as a number.
pub open spec fn sp_digits(s: Seq<u8>, n: int) -> Result<(int, int), ParseError> {
    if s.len() >= n {
        if all_digits(s.take(n)) {
            Ok((n, digits_val(s.take(n))))
        } else {
            Err(ParseError::Mismatch)
        }
    } else {
        if all_digits(s) {
            Err(ParseError::Incomplete)
        } else {
            Err(ParseError::Mismatch)
        }
    }
}

/// Takes exactly `n` digits from the input's start.
pub(crate) fn take_digits(i: &[u8], n: usize) -> (r: Result<(usize, u32), ParseError>)
    requires
        1 <= n <= 9,
    ensures
        match (r, sp_digits(i@, n as int)) {
            (Ok((c, v)), Ok((cs, vs))) => c as int == cs && v as int == vs,
            (Err(e), Err(f)) => e == f,
            _ => false,
        },
        r matches Ok((c, v)) ==> (v as int) < p10(n as int),
{
    let avail = if i.len() < n {
        i.len()
    } else {
        n
    };
    let mut j: usize = 0;
    while j < avail
        invariant
            0 <= j <= avail <= i@.len(),
            avail <= n,
            i@.len() >= n ==> avail == n,
            i@.len() < n ==> avail == i@.len(),
            all_digits(i@.take(j as int)),
        decreases avail - j,
    {
        let b = i[j];
        if b < 48 || b > 57 {
            proof {
                if i@.len() >= n {
                    assert(!is_digit_byte(i@.take(n as int)[j as int]));
                } else {
                    assert(!is_digit_byte(i@[j as int]));
                }
            }
            return Err(ParseError::Mismatch);
        }
        proof {
            assert(forall|k: int|
                0 <= k < j + 1 ==> is_digit_byte(#[trigger] i@.take(j + 1)[k]));
        }
        j = j + 1;
    }
    if i.len() < n {
        proof {
            assert(i@.take(i@.len() as int) =~= i@);
        }
        return Err(ParseError::Incomplete);
    }
    let buf = slice_subrange(i, 0, n);
    proof {
        assert(buf@ =~= i@.take(n as int));
        lemma_digits_val_bound(i@.take(n as int));
    }
    let v = buf_to_int(buf);
    Ok((n, v))
}

/// One exact byte.
pub open spec fn sp_byte(s: Seq<u8>, c: u8) -> Result<(int, ()), ParseError> {
    if s.len() == 0 {
        Err(ParseError::Incomplete)
    } else if s[0] == c {
        Ok((1, ()))
    } else {
        Err(ParseError::Mismatch)
    }
}

/// Takes one exact byte from the input's start.
pub(crate) fn take_byte(i: &[u8], c: u8) -> (r: Result<(usize, ()), ParseError>)
    ensures
        lifts(r, sp_byte(i@, c)),
{
    if i.len() == 0 {
        Err(ParseError::Incomplete)
    } else if i[0] == c {
        Ok((1, ()))
    } else {
        Err(ParseError::Mismatch)
    }
}

/// A sign character: `+`, `-`, or one of the typographic minus glyphs
/// U+2212 and U+2010 in UTF-8.
pub open spec fn sp_sign(s: Seq<u8>) -> Result<(int, i8), ParseError> {
    if s.len() == 0 {
        Err(ParseError::Incomplete)
    } else if s[0] == 43 {
        Ok((1, 1i8))
    } else if s[0] == 45 {
        Ok((1, -1i8))
    } else if s[0] == 0xe2 {
        if s.len() == 1 {
            Err(ParseError::Incomplete)
        } else if s[1] == 0x88 {
            if s.len() == 2 {
                Err(ParseError::Incomplete)
            } else if s[2] == 0x92 {
                Ok((3, -1i8))
            } else {
                Err(ParseError::Mismatch)
            }
        } else if s[1] == 0x80 {
            if s.len() == 2 {
                Err(ParseError::Incomplete)
            } else if s[2] == 0x90 {
                Ok((3, -1i8))
            } else {
                Err(ParseError::Mismatch)
            }
        } else {
            Err(ParseError::Mismatch)
        }
    } else {
        Err(ParseError::Mismatch)
    }
}

/// Parses a sign character, returning plus or minus one.
pub fn sign(i: &[u8]) -> (r: Result<(usize, i8), ParseError>)
    ensures
        lifts(r, sp_sign(i@)),
        r matches Ok((n, _)) ==> n <= i@.len(),
        r matches Ok((_, sg)) ==> sg == 1i8 || sg == -1i8,
{
    if i.len() == 0 {
        Err(ParseError::Incomplete)
    } else if i[0] == 43 {
        Ok((1, 1))
    } else if i[0] == 45 {
        Ok((1, -1))
    } else if i[0] == 0xe2 {
        if i.len() == 1 {
            Err(ParseError::Incomplete)
        } else if i[1] == 0x88 {
            if i.len() == 2 {
                Err(ParseError::Incomplete)
            } else if i[2] == 0x92 {
                Ok((3, -1))
            } else {
                Err(ParseError::Mismatch)
            }
        } else if i[1] == 0x80 {
            if i.len() == 2 {
                Err(ParseError::Incomplete)
            } else if i[2] == 0x90 {
                Ok((3, -1))
            } else {
                Err(ParseError::Mismatch)
            }
        } else {
            Err(ParseError::Mismatch)
        }
    } else {
        Err(ParseError::Mismatch)
    }
}

/// A decimal fraction: a `.` or `,` separator, then at least one digit,
/// as a numerator over ten to the nine.  More than nine digits are past
/// the supported precision; a bare separator matches nothing.
pub open spec fn sp_frac(s: Seq<u8>) -> Result<(int, u32), ParseError> {
    if s.len() == 0 {
        Err(ParseError::Incomplete)
    } else if s[0] != 46 && s[0] != 44 {
        Err(ParseError::Mismatch)
    } else {
        let e = digit_run(s, 1);
        if e == 1 {
            Err(ParseError::Mismatch)
        } else if e - 1 > 9 {
            Err(ParseError::TooPrecise)
        } else {
            Ok((e, (digits_val(s.subrange(1, e)) * p10(9 - (e - 1))) as u32))
        }
    }
}

/// The digit run starting at `k` ends at the first non-digit.
proof fn lemma_digit_run_step(s: Seq<u8>, k: int)
    requires
        0 <= k < s.len(),
        is_digit_byte(s[k]),
    ensures
        digit_run(s, k) == digit_run(s, k + 1),
{
}

/// Parses a decimal fraction into its numerator over ten to the nine.
pub(crate) fn fraction(i: &[u8]) -> (r: Result<(usize, u32), ParseError>)
    ensures
        lifts(r, sp_frac(i@)),
        r matches Ok((n, _)) ==> n <= i@.len(),
        r matches Ok((_, v)) ==> v < 1_000_000_000,
{
    if i.len() == 0 {
        return Err(ParseError::Incomplete);
    }
    if i[0] != 46 && i[0] != 44 {
        return Err(ParseError::Mismatch);
    }
    let mut j: usize = 1;
    while j < i.len() && 48 <= i[j] && i[j] <= 57
        invariant
            1 <= j <= i@.len(),
            digit_run(i@, 1) == digit_run(i@, j as int),
            all_digits(i@.subrange(1, j as int)),
        decreases i@.len() - j,
    {
        proof {
            lemma_digit_run_step(i@, j as int);
            assert(forall|k: int|
                0 <= k < j + 1 - 1 ==> is_digit_byte(#[trigger] i@.subrange(1, j + 1)[k]));
        }
        j = j + 1;
    }
    proof {
        assert(digit_run(i@, j as int) == j as int);
    }
    let cnt = j - 1;
    if cnt == 0 {
        return Err(ParseError::Mismatch);
    }
    if cnt > 9 {
        return Err(ParseError::TooPrecise);
    }
    let buf = slice_subrange(i, 1, j);
    proof {
        assert(buf@ =~= i@.subrange(1, j as int));
    }
    let v = sec_frac_buf_to_nanos(buf);
    proof {
        lemma_digits_val_bound(buf@);
        lemma_p10_pos(9 - cnt);
        lemma_p10_adds(cnt as int, 9 - cnt);
        assert(digits_val(buf@) * p10(9 - cnt) < p10(cnt as int) * p10(9 - cnt))
            by (nonlinear_arith)
            requires
                digits_val(buf@) < p10(cnt as int),
                p10(9 - cnt) >= 1,
                digits_val(buf@) >= 0,
        ;
        lemma_p10_values();
    }
    Ok((j, v))
}

} // verus!
