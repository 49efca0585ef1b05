use vstd::prelude::*;
use vstd::arithmetic::power::pow;
use vstd::string::StringSliceAdditionalSpecFns;

verus! {

/// The byte value of the ASCII digit `0`.
pub const DIGIT_ZERO: u8 = 48;

/// The byte value of the ASCII digit `9`.
pub const DIGIT_NINE: u8 = 57;

/// Whether a byte is one of the ASCII digits `0` through `9`.
pub open spec fn is_digit(b: u8) -> bool {
    DIGIT_ZERO <= b <= DIGIT_NINE
}

/// A whole number is a non-empty run of ASCII digits and nothing else.
pub open spec fn spec_is_whole_number(bytes: Seq<u8>) -> bool {
    &&& bytes.len() > 0
    &&& forall|i: int| 0 <= i < bytes.len() ==> is_digit(#[trigger] bytes[i])
}

/// Tells whether `s` is written with ASCII digits only (and at least one).
pub fn is_whole_number(s: &str) -> (r: bool)
    ensures
        r == spec_is_whole_number(s.spec_bytes()),
{
    let bytes = s.as_bytes();
    let n = bytes.len();
    if n == 0 {
        return false;
    }
    let mut i: usize = 0;
    while i < n
        invariant
            n == bytes@.len(),
            bytes@ == s.spec_bytes(),
            i <= n,
            forall|j: int| 0 <= j < i ==> is_digit(#[trigger] bytes@[j]),
        decreases n - i,
    {
        let b = bytes[i];
        if b < DIGIT_ZERO || b > DIGIT_NINE {
            return false;
        }
        i = i + 1;
    }
    true
}


/// The largest header count that is accepted: the largest value of a
/// signed 64-bit integer.
pub const MAX_HEADER_COUNT: u64 = 9223372036854775807;

/// The number that a run of decimal digits stands for, read in base ten
/// whatever leading zeros it has.
pub open spec fn decimal_value(bytes: Seq<u8>) -> nat
    decreases bytes.len(),
{
    if bytes.len() == 0 {
        0
    } else {
        decimal_value(bytes.drop_last()) * 10 + (bytes.last() - DIGIT_ZERO) as nat
    }
}

/// Why a header count was refused.
#[derive(Debug, Clone, Copy, PartialEq, Eq)]
pub enum HeaderCountError {
    /// The text is not a whole number (empty, or holds something else than digits).
    NotWholeNumber,
    /// The number is larger than `MAX_HEADER_COUNT`.
    TooLarge,
}

/// What reading `bytes` as a header count gives.
pub open spec fn spec_header_count(bytes: Seq<u8>) -> Result<u64, HeaderCountError> {
    if !spec_is_whole_number(bytes) {
        Err(HeaderCountError::NotWholeNumber)
    } else if decimal_value(bytes) > MAX_HEADER_COUNT {
        Err(HeaderCountError::TooLarge)
    } else {
        Ok(decimal_value(bytes) as u64)
    }
}

proof fn lemma_decimal_value_prefix_monotone(bytes: Seq<u8>, j: int, k: int)
    requires
        0 <= j <= k <= bytes.len(),
        forall|i: int| 0 <= i < bytes.len() ==> is_digit(#[trigger] bytes[i]),
    ensures
        decimal_value(bytes.take(j)) <= decimal_value(bytes.take(k)),
    decreases k - j,
{
    if j < k {
        lemma_decimal_value_prefix_monotone(bytes, j, k - 1);
        assert(bytes.take(k).drop_last() =~= bytes.take(k - 1));
    }
}

/// Reads `s` as a decimal header count: a whole number no larger than
/// `MAX_HEADER_COUNT`, leading zeros allowed and never read as octal.
pub fn parse_header_count(s: &str) -> (r: Result<u64, HeaderCountError>)
    ensures
        r == spec_header_count(s.spec_bytes()),
{
    if !is_whole_number(s) {
        return Err(HeaderCountError::NotWholeNumber);
    }
    let bytes = s.as_bytes();
    let n = bytes.len();
    let mut acc: u128 = 0;
    let mut i: usize = 0;
    assert(bytes@.take(0) =~= Seq::<u8>::empty());
    while i < n
        invariant
            n == bytes@.len(),
            bytes@ == s.spec_bytes(),
            spec_is_whole_number(bytes@),
            i <= n,
            acc == decimal_value(bytes@.take(i as int)),
            acc <= MAX_HEADER_COUNT,
        decreases n - i,
    {
        let d = bytes[i] - DIGIT_ZERO;
        assert(acc * 10 + d <= 0xffff_ffff_ffff_ffff_ffff) by (nonlinear_arith)
            requires
                acc <= MAX_HEADER_COUNT,
                d <= 9,
        ;
        assert(bytes@.take(i + 1).drop_last() =~= bytes@.take(i as int));
        acc = acc * 10 + d as u128;
        i = i + 1;
        if acc > MAX_HEADER_COUNT as u128 {
            proof {
                lemma_decimal_value_prefix_monotone(bytes@, i as int, n as int);
                assert(bytes@.take(n as int) =~= bytes@);
            }
            return Err(HeaderCountError::TooLarge);
        }
    }
    assert(bytes@.take(n as int) =~= bytes@);
    Ok(acc as u64)
}

/// Leading zeros do not change a header count: `0` put in front of a whole
/// number reads as the same count.
pub proof fn law_leading_zero_is_decimal(digits: Seq<u8>)
    requires
        spec_is_whole_number(digits),
    ensures
        spec_header_count(seq![DIGIT_ZERO] + digits) == spec_header_count(digits),
    decreases digits.len(),
{
    lemma_leading_zero_value(digits);
    let z = seq![DIGIT_ZERO] + digits;
    assert(forall|i: int| 0 <= i < z.len() ==> is_digit(#[trigger] z[i])) by {
        assert forall|i: int| 0 <= i < z.len() implies is_digit(#[trigger] z[i]) by {
            if i > 0 {
                assert(z[i] == digits[i - 1]);
            }
        }
    }
}

proof fn lemma_leading_zero_value(digits: Seq<u8>)
    ensures
        decimal_value(seq![DIGIT_ZERO] + digits) == decimal_value(digits),
    decreases digits.len(),
{
    let z = seq![DIGIT_ZERO] + digits;
    if digits.len() == 0 {
        assert(z.drop_last() =~= Seq::<u8>::empty());
        assert(z.last() == DIGIT_ZERO);
        assert(decimal_value(z.drop_last()) == 0);
        assert(decimal_value(z) == 0);
        assert(decimal_value(digits) == 0);
    } else {
        lemma_leading_zero_value(digits.drop_last());
        assert(z.drop_last() =~= seq![DIGIT_ZERO] + digits.drop_last());
        assert(z.last() == digits.last());
    }
}


/// A single digit stands for its own value.
pub proof fn law_single_digit_value(d: u8)
    requires
        is_digit(d),
    ensures
        decimal_value(seq![d]) == d - 48,
        spec_is_whole_number(seq![d]),
{
    assert(seq![d].drop_last() =~= Seq::<u8>::empty());
    assert(decimal_value(Seq::<u8>::empty()) == 0);
    assert(seq![d].last() == d);
    assert(decimal_value(seq![d]) == decimal_value(seq![d].drop_last()) * 10 + (d - DIGIT_ZERO) as nat);
}

/// Digits written after others shift them by one decimal place each: the
/// value of `high` followed by `low` is `high` times ten to the length of
/// `low`, plus `low`.
pub proof fn law_decimal_positions(high: Seq<u8>, low: Seq<u8>)
    ensures
        decimal_value(high + low) == decimal_value(high) * pow(10, low.len()) + decimal_value(low),
    decreases low.len(),
{
    reveal(pow);
    if low.len() == 0 {
        assert(high + low =~= high);
    } else {
        let shorter = low.drop_last();
        law_decimal_positions(high, shorter);
        assert((high + low).drop_last() =~= high + shorter);
        assert((high + low).last() == low.last());
        let h = decimal_value(high) as int;
        let p = pow(10, shorter.len());
        let s = decimal_value(shorter) as int;
        assert(pow(10, low.len()) == 10 * p);
        assert((h * p + s) * 10 == h * (10 * p) + s * 10) by (nonlinear_arith);
    }
}

/// A whole number is made of whole numbers: two non-empty texts together
/// are one exactly when each is one; a single byte is one exactly when it
/// is a digit `0` to `9`; the empty text is none.
pub proof fn law_whole_numbers_are_runs_of_digits(a: Seq<u8>, b: Seq<u8>, x: u8)
    requires
        a.len() > 0,
        b.len() > 0,
    ensures
        spec_is_whole_number(a + b) <==> spec_is_whole_number(a) && spec_is_whole_number(b),
        spec_is_whole_number(seq![x]) <==> 48 <= x <= 57,
        !spec_is_whole_number(Seq::<u8>::empty()),
{
    let ab = a + b;
    if spec_is_whole_number(ab) {
        assert forall|i: int| 0 <= i < a.len() implies is_digit(#[trigger] a[i]) by {
            assert(ab[i] == a[i]);
        }
        assert forall|i: int| 0 <= i < b.len() implies is_digit(#[trigger] b[i]) by {
            assert(ab[a.len() + i] == b[i]);
        }
    }
    if spec_is_whole_number(a) && spec_is_whole_number(b) {
        assert forall|i: int| 0 <= i < ab.len() implies is_digit(#[trigger] ab[i]) by {
            if i < a.len() {
                assert(ab[i] == a[i]);
            } else {
                assert(ab[i] == b[i - a.len()]);
            }
        }
    }
    assert(seq![x][0] == x);
}

/// A header count is accepted exactly when it is a whole number no larger
/// than 9223372036854775807, and then it is that number.
pub proof fn law_header_count_bounds(digits: Seq<u8>)
    ensures
        spec_header_count(digits) is Ok <==> spec_is_whole_number(digits) && decimal_value(digits)
            <= 9223372036854775807,
        spec_header_count(digits) matches Ok(n) ==> n == decimal_value(digits),
        spec_is_whole_number(digits) && decimal_value(digits) > 9223372036854775807
            ==> spec_header_count(digits) == Err::<u64, HeaderCountError>(HeaderCountError::TooLarge),
        !spec_is_whole_number(digits) ==> spec_header_count(digits) == Err::<u64, HeaderCountError>(
            HeaderCountError::NotWholeNumber,
        ),
{
}

} // verus!
