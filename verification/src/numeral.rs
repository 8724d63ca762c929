//! Integers in decimal notation, read from text.

use vstd::prelude::*;

#[allow(unused_imports)]
use crate::text::{decimal, digit_char, digit_value, is_digit, signed_decimal};

verus! {

/// Why a text is not an integer of the wanted type.
#[derive(Clone, Copy, Debug, PartialEq, Eq, Structural)]
pub enum IntFault {
    /// The text is empty.
    Empty,
    /// A character stands where only a digit may.
    InvalidDigit,
    /// The number exceeds the largest value of the type.
    TooLarge,
    /// The number is below the smallest value of the type.
    TooSmall,
}

/// How many digits `s` starts with.
pub open spec fn leading_digits(s: Seq<char>) -> nat
    decreases s.len(),
{
    if s.len() > 0 && is_digit(s[0]) {
        1 + leading_digits(s.drop_first())
    } else {
        0
    }
}

/// The number that a sequence of digits denotes.
pub open spec fn digits_value(s: Seq<char>) -> nat
    decreases s.len(),
{
    if s.len() == 0 {
        0
    } else {
        (digits_value(s.drop_last()) * 10 + digit_value(s.last())) as nat
    }
}

/// The sign character that `s` starts with takes no part in the digits: a plus
/// sign always, a minus sign only for types with negative values.
pub open spec fn has_sign(s: Seq<char>, signed: bool) -> bool {
    s.len() > 0 && (s[0] == '+' || (signed && s[0] == '-'))
}

/// What is left of `s` behind its sign.
pub open spec fn unsigned_part(s: Seq<char>, signed: bool) -> Seq<char> {
    if has_sign(s, signed) {
        s.drop_first()
    } else {
        s
    }
}

/// The integer between `lo` and `hi` that `s` denotes: an optional sign, then one
/// digit or more. A number that leaves the range is reported as such even where a
/// character that is no digit follows it.
pub open spec fn read_int(s: Seq<char>, lo: int, hi: int) -> Result<int, IntFault> {
    let digits = unsigned_part(s, lo < 0);
    let count = leading_digits(digits);
    let magnitude = digits_value(digits.take(count as int));
    let negative = has_sign(s, lo < 0) && s[0] == '-';
    if s.len() == 0 {
        Err(IntFault::Empty)
    } else if negative && -magnitude < lo {
        Err(IntFault::TooSmall)
    } else if !negative && magnitude > hi {
        Err(IntFault::TooLarge)
    } else if count == 0 || count < digits.len() {
        Err(IntFault::InvalidDigit)
    } else if negative {
        Ok(-magnitude)
    } else {
        Ok(magnitude as int)
    }
}

/// `leading_digits` counts exactly the digits before the first other character.
proof fn lemma_leading_digits(s: Seq<char>, n: nat)
    requires
        n <= s.len(),
        forall|i: int| 0 <= i < n ==> is_digit(#[trigger] s[i]),
        n < s.len() ==> !is_digit(s[n as int]),
    ensures
        leading_digits(s) == n,
    decreases s.len(),
{
    if n > 0 {
        let rest = s.drop_first();
        assert forall|i: int| 0 <= i < n - 1 implies is_digit(#[trigger] rest[i]) by {
            assert(rest[i] == s[i + 1]);
        }
        lemma_leading_digits(rest, (n - 1) as nat);
    }
}

/// A prefix of digits denotes no larger a number than a longer one.
proof fn lemma_digits_value_grows(s: Seq<char>, m: int, n: int)
    requires
        0 <= m <= n <= s.len(),
        forall|i: int| 0 <= i < n ==> is_digit(#[trigger] s[i]),
    ensures
        digits_value(s.take(m)) <= digits_value(s.take(n)),
    decreases n - m,
{
    if m < n {
        lemma_digits_value_grows(s, m, n - 1);
        assert(s.take(n).drop_last() == s.take(n - 1));
        assert(s.take(n).last() == s[n - 1]);
    }
}

/// `leading_digits` stops at the first character that is no digit.
proof fn lemma_leading_digits_bound(s: Seq<char>)
    ensures
        leading_digits(s) <= s.len(),
        forall|i: int| 0 <= i < leading_digits(s) ==> is_digit(#[trigger] s[i]),
        leading_digits(s) < s.len() ==> !is_digit(s[leading_digits(s) as int]),
    decreases s.len(),
{
    if s.len() > 0 && is_digit(s[0]) {
        let rest = s.drop_first();
        lemma_leading_digits_bound(rest);
        assert forall|i: int| 0 <= i < leading_digits(s) implies is_digit(#[trigger] s[i]) by {
            if i > 0 {
                assert(rest[i - 1] == s[i]);
            }
        }
        if leading_digits(s) < s.len() {
            assert(rest[leading_digits(rest) as int] == s[leading_digits(s) as int]);
        }
    }
}

/// Reads an integer between `lo` and `hi` from `s`.
pub fn parse_int(s: &[char], lo: i64, hi: u64) -> (r: Result<i128, IntFault>)
    requires
        lo <= 0,
    ensures
        r matches Ok(v) ==> read_int(s@, lo as int, hi as int) == Ok::<int, IntFault>(v as int)
            && lo <= v <= hi,
        r matches Err(f) ==> read_int(s@, lo as int, hi as int) == Err::<int, IntFault>(f),
{
    let n: usize = s.len();
    if n == 0 {
        return Err(IntFault::Empty);
    }
    let signed = lo < 0;
    let first = s[0];
    let negative = signed && first == '-';
    let start: usize = if first == '+' || negative { 1 } else { 0 };
    let ghost digits = unsigned_part(s@, signed);
    assert(digits == s@.skip(start as int));
    let mut acc: i128 = 0;
    let mut i: usize = start;
    while i < n && '0' <= s[i] && s[i] <= '9'
        invariant
            n == s@.len(),
            start <= i <= n,
            digits == s@.skip(start as int),
            forall|j: int| 0 <= j < i - start ==> is_digit(#[trigger] digits[j]),
            acc == digits_value(digits.take(i - start)),
            negative ==> -acc >= lo,
            !negative ==> acc <= hi,
            lo <= 0,
            n > 0,
            signed == (lo < 0),
            first == s@[0],
            negative == (signed && first == '-'),
            start == (if has_sign(s@, signed) { 1int } else { 0int }),
            digits == unsigned_part(s@, signed),
        decreases n - i,
    {
        let d: i128 = (s[i] as u32 - 48) as i128;
        let ghost next = digits.take(i - start + 1);
        assert(next.drop_last() == digits.take(i - start));
        assert(next.last() == s@[i as int]);
        acc = acc * 10 + d;
        proof {
            lemma_leading_digits_bound(digits);
            let count = leading_digits(digits);
            if count < i - start + 1 {
                assert(is_digit(digits[count as int]));
            }
            lemma_digits_value_grows(digits, i - start + 1, count as int);
        }
        if negative {
            if -acc < lo as i128 {
                return Err(IntFault::TooSmall);
            }
        } else if acc > hi as i128 {
            return Err(IntFault::TooLarge);
        }
        i = i + 1;
    }
    proof {
        if i < n {
            assert(digits[i - start] == s@[i as int]);
        }
        lemma_leading_digits(digits, (i - start) as nat);
    }
    if i == start || i < n {
        return Err(IntFault::InvalidDigit);
    }
    if negative {
        Ok(-acc)
    } else {
        Ok(acc)
    }
}

/// Reads a `u32`.
pub fn parse_u32(s: &[char]) -> (r: Result<u32, IntFault>)
    ensures
        r matches Ok(v) ==> read_int(s@, 0, u32::MAX as int) == Ok::<int, IntFault>(v as int),
        r matches Err(f) ==> read_int(s@, 0, u32::MAX as int) == Err::<int, IntFault>(f),
{
    match parse_int(s, 0, u32::MAX as u64) {
        Ok(v) => Ok(v as u32),
        Err(f) => Err(f),
    }
}

/// Decimal notation consists of digits, at least one, and denotes its number.
pub(crate) proof fn lemma_decimal(n: nat)
    ensures
        decimal(n).len() > 0,
        forall|i: int| 0 <= i < decimal(n).len() ==> is_digit(#[trigger] decimal(n)[i]),
        digits_value(decimal(n)) == n,
    decreases n,
{
    if n >= 10 {
        lemma_decimal(n / 10);
        assert(decimal(n).drop_last() == decimal(n / 10));
    } else {
        assert(decimal(n).drop_last() == Seq::<char>::empty());
        assert(digits_value(decimal(n).drop_last()) == 0);
    }
}

/// An integer within the range of its type, written in decimal notation, is read
/// back as itself.
pub proof fn law_decimal_is_read_back(i: int, lo: int, hi: int)
    requires
        lo <= i <= hi,
        lo <= 0,
    ensures
        read_int(signed_decimal(i), lo, hi) == Ok::<int, IntFault>(i),
{
    let s = signed_decimal(i);
    let magnitude: nat = if i < 0 { (-i) as nat } else { i as nat };
    let digits = decimal(magnitude);
    lemma_decimal(magnitude);
    assert(is_digit(digits[0]));
    assert(unsigned_part(s, lo < 0) =~= digits);
    lemma_leading_digits(digits, digits.len());
    assert(digits.take(digits.len() as int) == digits);
}

/// A number that is read lies within the range.
pub proof fn law_int_is_in_range(s: Seq<char>, lo: int, hi: int)
    requires
        lo <= 0 <= hi,
    ensures
        read_int(s, lo, hi) matches Ok(v) ==> lo <= v <= hi,
{
}

/// The ten digits and their values.
pub proof fn law_digits()
    ensures
        forall|c: char| #[trigger] is_digit(c) <==> seq![
            '0', '1', '2', '3', '4', '5', '6', '7', '8', '9',
        ].contains(c),
        forall|d: int|
            0 <= d < 10 ==> seq!['0', '1', '2', '3', '4', '5', '6', '7', '8', '9'][d]
                == #[trigger] digit_char(d) && digit_value(digit_char(d)) == d,
{
    let all = seq!['0', '1', '2', '3', '4', '5', '6', '7', '8', '9'];
    assert forall|c: char| #[trigger] is_digit(c) implies all.contains(c) by {
        assert(all[c as int - 48] == c);
    }
}

/// A single digit denotes its value.
pub proof fn law_one_digit(c: char, lo: int, hi: int)
    requires
        is_digit(c),
        lo <= 0,
        9 <= hi,
    ensures
        read_int(seq![c], lo, hi) == Ok::<int, IntFault>(digit_value(c)),
{
    let s = seq![c];
    assert(unsigned_part(s, lo < 0) == s);
    lemma_leading_digits(s, 1);
    assert(s.take(1) == s);
    assert(s.drop_last() == Seq::<char>::empty());
    assert(digits_value(s.drop_last()) == 0);
}

/// A further digit behind a number multiplies it by ten and adds its value, towards
/// the side of its sign; what then leaves the range is refused.
pub proof fn law_further_digit(s: Seq<char>, c: char, v: int, lo: int, hi: int)
    requires
        is_digit(c),
        lo <= 0 <= hi,
        read_int(s, lo, hi) == Ok::<int, IntFault>(v),
    ensures
        s[0] != '-' ==> read_int(s.push(c), lo, hi) == (if 10 * v + digit_value(c) <= hi {
            Ok::<int, IntFault>(10 * v + digit_value(c))
        } else {
            Err(IntFault::TooLarge)
        }),
        s[0] == '-' ==> read_int(s.push(c), lo, hi) == (if 10 * v - digit_value(c) >= lo {
            Ok::<int, IntFault>(10 * v - digit_value(c))
        } else {
            Err(IntFault::TooSmall)
        }),
{
    let digits = unsigned_part(s, lo < 0);
    let longer = s.push(c);
    assert(unsigned_part(longer, lo < 0) =~= digits.push(c));
    lemma_leading_digits_bound(digits);
    assert forall|i: int| 0 <= i < digits.len() + 1 implies is_digit(#[trigger] digits.push(c)[i]) by {
        if i < digits.len() {
            assert(digits.push(c)[i] == digits[i]);
        }
    }
    lemma_leading_digits(digits.push(c), digits.len() + 1);
    assert(digits.take(digits.len() as int) == digits);
    assert(digits.push(c).take(digits.len() as int + 1) == digits.push(c));
    assert(digits.push(c).drop_last() == digits);
    assert(longer[0] == s[0]);
}

/// A plus sign in front of a digit changes nothing; a minus sign in front of one turns
/// the number over for a type with negative values, and is refused for another.
pub proof fn law_sign(s: Seq<char>, lo: int, hi: int)
    requires
        s.len() > 0,
        is_digit(s[0]),
        lo <= 0 <= hi,
    ensures
        read_int(seq!['+'] + s, lo, hi) == read_int(s, lo, hi),
        lo < 0 ==> read_int(seq!['-'] + s, lo, hi) == (match read_int(s, 0, -lo) {
            Ok(v) => Ok::<int, IntFault>(-v),
            Err(IntFault::TooLarge) => Err(IntFault::TooSmall),
            Err(fault) => Err(fault),
        }),
        lo == 0 ==> read_int(seq!['-'] + s, lo, hi) == Err::<int, IntFault>(IntFault::InvalidDigit),
{
    let plus = seq!['+'] + s;
    let minus = seq!['-'] + s;
    assert(plus[0] == '+' && minus[0] == '-');
    assert(plus.drop_first() == s);
    assert(minus.drop_first() == s);
    assert(minus.take(0) == Seq::<char>::empty());
    assert(digits_value(minus.take(0)) == 0);
    assert(leading_digits(s) > 0);
}

/// The empty text, and no other, is refused as empty.
pub proof fn law_empty_text(s: Seq<char>, lo: int, hi: int)
    ensures
        read_int(s, lo, hi) == Err::<int, IntFault>(IntFault::Empty) <==> s.len() == 0,
{
}

/// A text that holds anything but digits behind an optional sign, or no digit at all,
/// is no number.
pub proof fn law_only_digits_are_numbers(s: Seq<char>, lo: int, hi: int, i: int)
    requires
        0 <= i < s.len(),
        !is_digit(s[i]),
        i == 0 ==> s[0] != '+' && s[0] != '-' || s.len() == 1,
    ensures
        read_int(s, lo, hi) is Err,
{
    let digits = unsigned_part(s, lo < 0);
    lemma_leading_digits_bound(digits);
    if has_sign(s, lo < 0) {
        if i > 0 {
            assert(digits[i - 1] == s[i]);
        }
    } else {
        assert(digits[i] == s[i]);
    }
}

/// A text that is not empty and does not start with a digit, behind a sign where it has
/// one, has an invalid digit.
pub proof fn law_number_starts_with_a_digit(s: Seq<char>, lo: int, hi: int)
    requires
        s.len() > 0,
        lo <= 0 <= hi,
        !is_digit(s[0]),
        (s[0] == '+' || s[0] == '-') && s.len() > 1 ==> !is_digit(s[1]),
    ensures
        read_int(s, lo, hi) == Err::<int, IntFault>(IntFault::InvalidDigit),
{
    let digits = unsigned_part(s, lo < 0);
    if digits.len() > 0 {
        assert(digits[0] == s[0] || digits[0] == s[1]);
    }
    assert(leading_digits(digits) == 0);
    assert(digits.take(0) =~= Seq::empty());
    assert(digits_value(digits.take(0)) == 0);
}

/// What follows a number that is too large, or too small, makes no difference; and a
/// character that is no digit behind a number in the range is an invalid digit.
pub proof fn law_first_fault_is_reported(
    s: Seq<char>,
    c: char,
    tail: Seq<char>,
    lo: int,
    hi: int,
)
    requires
        lo <= 0 <= hi,
    ensures
        read_int(s, lo, hi) == Err::<int, IntFault>(IntFault::TooLarge) ==> read_int(
            s + tail,
            lo,
            hi,
        ) == Err::<int, IntFault>(IntFault::TooLarge),
        read_int(s, lo, hi) == Err::<int, IntFault>(IntFault::TooSmall) ==> read_int(
            s + tail,
            lo,
            hi,
        ) == Err::<int, IntFault>(IntFault::TooSmall),
        read_int(s, lo, hi) is Ok && !is_digit(c) ==> read_int(s.push(c) + tail, lo, hi) == Err::<
            int,
            IntFault,
        >(IntFault::InvalidDigit),
{
    if s.len() > 0 {
        let digits = unsigned_part(s, lo < 0);
        let n = leading_digits(digits) as int;
        lemma_leading_digits_bound(digits);
        let longer = unsigned_part(s + tail, lo < 0);
        assert((s + tail)[0] == s[0]);
        assert(longer =~= digits + tail);
        lemma_leading_digits_bound(longer);
        assert forall|i: int| 0 <= i < n implies is_digit(#[trigger] longer[i]) by {
            assert(longer[i] == digits[i]);
        }
        if leading_digits(longer) < n {
            assert(is_digit(longer[leading_digits(longer) as int]));
        }
        lemma_digits_value_grows(longer, n, leading_digits(longer) as int);
        assert(longer.take(n) =~= digits.take(n));
        let ended = unsigned_part(s.push(c) + tail, lo < 0);
        assert((s.push(c) + tail)[0] == s[0]);
        assert(ended =~= digits.push(c) + tail);
        if read_int(s, lo, hi) is Ok && !is_digit(c) {
            assert forall|i: int| 0 <= i < n implies is_digit(#[trigger] ended[i]) by {
                assert(ended[i] == digits[i]);
            }
            assert(ended[n] == c);
            lemma_leading_digits(ended, n as nat);
            assert(ended.take(n) =~= digits.take(n));
        }
    }
}

/// Decimal notation has no leading zero but in zero itself, and a number ten times as
/// large and more by a digit has that digit behind.
pub proof fn law_decimal_notation(n: nat, d: int)
    requires
        0 <= d < 10,
    ensures
        decimal(n).len() > 1 ==> decimal(n)[0] != '0',
        n > 0 ==> decimal((10 * n + d) as nat) == decimal(n).push(digit_char(d)),
        decimal(d as nat) == seq![digit_char(d)],
        n > 0 ==> signed_decimal(-(n as int)) == seq!['-'] + decimal(n),
        signed_decimal(n as int) == decimal(n),
{
    lemma_no_leading_zero(n);
}

proof fn lemma_no_leading_zero(n: nat)
    ensures
        n > 0 ==> decimal(n)[0] != '0',
        decimal(n).len() > 0,
        n < 10 ==> decimal(n).len() == 1,
    decreases n,
{
    if n >= 10 {
        lemma_no_leading_zero(n / 10);
        assert(decimal(n)[0] == decimal(n / 10)[0]);
    }
}

/// Whether `text` is read as the integer `value`.
pub open spec fn stands_for(text: Seq<char>, value: int) -> bool {
    read_int(text, -0x8000_0000_0000_0000, 0xFFFF_FFFF_FFFF_FFFF) == Ok::<int, IntFault>(value)
}

/// Decimal notation stands for its number and for no other, so that different numbers
/// are written differently.
pub proof fn law_decimal_stands_for_its_number(i: int, j: int)
    requires
        -0x8000_0000_0000_0000 <= i <= 0xFFFF_FFFF_FFFF_FFFF,
        -0x8000_0000_0000_0000 <= j <= 0xFFFF_FFFF_FFFF_FFFF,
    ensures
        stands_for(signed_decimal(i), i),
        i >= 0 ==> stands_for(decimal(i as nat), i),
        i != j ==> !stands_for(signed_decimal(i), j),
        i != j ==> signed_decimal(i) != signed_decimal(j),
{
    law_decimal_is_read_back(i, -0x8000_0000_0000_0000, 0xFFFF_FFFF_FFFF_FFFF);
    law_decimal_is_read_back(j, -0x8000_0000_0000_0000, 0xFFFF_FFFF_FFFF_FFFF);
}

} // verus!
