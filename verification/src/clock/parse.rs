use vstd::prelude::*;
use crate::utils::simple_error::SimpleError;

verus! {

/// Why a text is not a decimal integer of the wanted type.
#[derive(Debug, Clone, Copy, PartialEq, Eq, Structural)]
pub enum IntErrorKind {
    /// The text is empty.
    Empty,
    /// A character is not a decimal digit, or a sign stands alone.
    InvalidDigit,
    /// The value is above the type's maximum.
    PosOverflow,
    /// The value is below the type's minimum.
    NegOverflow,
}

pub open spec fn is_digit(c: char) -> bool {
    '0' <= c <= '9'
}

pub open spec fn digit_value(c: char) -> int {
    c as int - '0' as int
}

/// The digits `s`, read left to right onto the accumulated value `acc`
/// (added for a positive number, subtracted for a negative one), stopping at
/// the first character that is not a digit or the first step whose value
/// leaves `i64`.
pub open spec fn scan_digits(s: Seq<char>, negative: bool, acc: int) -> Result<int, IntErrorKind>
    decreases s.len(),
{
    if s.len() == 0 {
        Ok(acc)
    } else if !is_digit(s[0]) {
        Err(IntErrorKind::InvalidDigit)
    } else {
        let next = if negative { acc * 10 - digit_value(s[0]) } else { acc * 10 + digit_value(s[0]) };
        if next > i64::MAX {
            Err(IntErrorKind::PosOverflow)
        } else if next < i64::MIN {
            Err(IntErrorKind::NegOverflow)
        } else {
            scan_digits(s.skip(1), negative, next)
        }
    }
}

/// A decimal integer of type `i64`: an optional `+` or `-`, then one digit
/// or more.
pub open spec fn spec_parse_i64(s: Seq<char>) -> Result<int, IntErrorKind> {
    if s.len() == 0 {
        Err(IntErrorKind::Empty)
    } else if s[0] == '+' || s[0] == '-' {
        if s.len() == 1 {
            Err(IntErrorKind::InvalidDigit)
        } else {
            scan_digits(s.skip(1), s[0] == '-', 0)
        }
    } else {
        scan_digits(s, false, 0)
    }
}

/// The value of a string of decimal digits.
pub open spec fn digits_value(s: Seq<char>) -> int
    decreases s.len(),
{
    if s.len() == 0 {
        0
    } else {
        digits_value(s.drop_last()) * 10 + digit_value(s.last())
    }
}

pub open spec fn all_digits(s: Seq<char>) -> bool {
    forall|i: int| 0 <= i < s.len() ==> is_digit(#[trigger] s[i])
}

/// Ten to the power `n`.
pub open spec fn pow10(n: nat) -> int
    decreases n,
{
    if n == 0 {
        1
    } else {
        10 * pow10((n - 1) as nat)
    }
}

/// The integer that `s` writes in decimal: an optional `+` or `-` and one
/// digit or more; `None` for any other text.
pub open spec fn decimal_value(s: Seq<char>) -> Option<int> {
    if s.len() > 0 && (s[0] == '+' || s[0] == '-') {
        let body = s.skip(1);
        if body.len() > 0 && all_digits(body) {
            Some(if s[0] == '-' { -digits_value(body) } else { digits_value(body) })
        } else {
            None
        }
    } else if s.len() > 0 && all_digits(s) {
        Some(digits_value(s))
    } else {
        None
    }
}

proof fn lemma_pow10_positive(n: nat)
    ensures
        pow10(n) >= 1,
    decreases n,
{
    if n > 0 {
        lemma_pow10_positive((n - 1) as nat);
    }
}

proof fn lemma_digits_value_nonneg(t: Seq<char>)
    requires
        all_digits(t),
    ensures
        digits_value(t) >= 0,
    decreases t.len(),
{
    if t.len() > 0 {
        assert(is_digit(t[t.len() - 1]));
        lemma_digits_value_nonneg(t.drop_last());
    }
}

/// Reading the first digit apart from the rest.
proof fn lemma_digits_value_front(t: Seq<char>)
    requires
        t.len() > 0,
    ensures
        digits_value(t) == digit_value(t[0]) * pow10((t.len() - 1) as nat) + digits_value(t.skip(1)),
    decreases t.len(),
{
    if t.len() == 1 {
        assert(t.drop_last() =~= Seq::<char>::empty());
        assert(t.skip(1) =~= Seq::<char>::empty());
    } else {
        let dl = t.drop_last();
        lemma_digits_value_front(dl);
        assert(t.skip(1).drop_last() =~= dl.skip(1));
        assert(t.skip(1).last() == t.last());
        let p = pow10((t.len() - 2) as nat);
        let d0 = digit_value(t[0]);
        assert(dl[0] == t[0]);
        assert((d0 * p + digits_value(dl.skip(1))) * 10 == d0 * (10 * p) + digits_value(dl.skip(1)) * 10)
            by (nonlinear_arith);
    }
}

/// The scan ends in the value that the digits write onto the accumulated
/// value, or in the overflow that this value is past.
proof fn lemma_scan_digits(t: Seq<char>, negative: bool, acc: int)
    requires
        all_digits(t),
        negative ==> i64::MIN <= acc <= 0,
        !negative ==> 0 <= acc <= i64::MAX,
    ensures
        ({
            let f = if negative {
                acc * pow10(t.len()) - digits_value(t)
            } else {
                acc * pow10(t.len()) + digits_value(t)
            };
            scan_digits(t, negative, acc) == if f > i64::MAX {
                Err::<int, IntErrorKind>(IntErrorKind::PosOverflow)
            } else if f < i64::MIN {
                Err::<int, IntErrorKind>(IntErrorKind::NegOverflow)
            } else {
                Ok::<int, IntErrorKind>(f)
            }
        }),
    decreases t.len(),
{
    if t.len() > 0 {
        let rest = t.skip(1);
        let n = (t.len() - 1) as nat;
        assert(is_digit(t[0]));
        assert(all_digits(rest)) by {
            assert forall|i: int| 0 <= i < rest.len() implies is_digit(#[trigger] rest[i]) by {
                assert(rest[i] == t[i + 1]);
            }
        }
        lemma_digits_value_front(t);
        lemma_digits_value_nonneg(rest);
        lemma_pow10_positive(n);
        let d = digit_value(t[0]);
        let p = pow10(n);
        assert(pow10(t.len()) == 10 * p);
        let next = if negative { acc * 10 - d } else { acc * 10 + d };
        if negative {
            assert(acc * (10 * p) - (d * p + digits_value(rest)) == next * p - digits_value(rest))
                by (nonlinear_arith)
                requires next == acc * 10 - d;
            assert(next * p <= next) by (nonlinear_arith)
                requires next <= 0, p >= 1;
        } else {
            assert(acc * (10 * p) + (d * p + digits_value(rest)) == next * p + digits_value(rest))
                by (nonlinear_arith)
                requires next == acc * 10 + d;
            assert(next * p >= next) by (nonlinear_arith)
                requires next >= 0, p >= 1;
        }
        if next <= i64::MAX && next >= i64::MIN {
            lemma_scan_digits(rest, negative, next);
        }
    }
}

proof fn lemma_scan_ok_all_digits(t: Seq<char>, negative: bool, acc: int)
    requires
        scan_digits(t, negative, acc) is Ok,
    ensures
        all_digits(t),
    decreases t.len(),
{
    if t.len() > 0 {
        let next = if negative { acc * 10 - digit_value(t[0]) } else { acc * 10 + digit_value(t[0]) };
        lemma_scan_ok_all_digits(t.skip(1), negative, next);
        assert forall|i: int| 0 <= i < t.len() implies is_digit(#[trigger] t[i]) by {
            if i > 0 {
                assert(t.skip(1)[i - 1] == t[i]);
            }
        }
    }
}

/// Reading an `i64` succeeds exactly on the texts that write an integer in
/// decimal within the range of `i64`, and gives that integer.
pub proof fn lemma_parse_i64_reads_decimal(s: Seq<char>)
    ensures
        spec_parse_i64(s) is Ok <==> (decimal_value(s) matches Some(v) && i64::MIN <= v <= i64::MAX),
        spec_parse_i64(s) matches Ok(v) ==> decimal_value(s) == Some(v),
{
    if s.len() > 0 {
        let signed = s[0] == '+' || s[0] == '-';
        let body = if signed { s.skip(1) } else { s };
        let negative = signed && s[0] == '-';
        if body.len() > 0 {
            if all_digits(body) {
                lemma_scan_digits(body, negative, 0);
                lemma_digits_value_nonneg(body);
            } else if spec_parse_i64(s) is Ok {
                lemma_scan_ok_all_digits(body, negative, 0);
            }
        }
    }
}

impl IntErrorKind {
    pub open spec fn spec_text(self) -> Seq<char> {
        match self {
            IntErrorKind::Empty => "cannot parse integer from empty string"@,
            IntErrorKind::InvalidDigit => "invalid digit found in string"@,
            IntErrorKind::PosOverflow => "number too large to fit in target type"@,
            IntErrorKind::NegOverflow => "number too small to fit in target type"@,
        }
    }

    /// The error, with the text that describes it.
    pub fn to_error(&self) -> (e: SimpleError)
        ensures
            e@ == self.spec_text(),
    {
        match self {
            IntErrorKind::Empty => SimpleError::new("cannot parse integer from empty string"),
            IntErrorKind::InvalidDigit => SimpleError::new("invalid digit found in string"),
            IntErrorKind::PosOverflow => SimpleError::new("number too large to fit in target type"),
            IntErrorKind::NegOverflow => SimpleError::new("number too small to fit in target type"),
        }
    }
}

/// Reads `text` as a decimal `i64`, such as the clock time in milliseconds
/// that the server answers with.
pub fn parse_i64(text: &str) -> (r: Result<i64, IntErrorKind>)
    ensures
        match spec_parse_i64(text@) {
            Ok(v) => r == Ok::<i64, IntErrorKind>(v as i64),
            Err(k) => r == Err::<i64, IntErrorKind>(k),
        },
{
    let len: usize = text.unicode_len();
    if len == 0 {
        return Err(IntErrorKind::Empty);
    }
    let first: char = text.get_char(0);
    let mut start: usize = 0;
    let mut negative: bool = false;
    if first == '+' || first == '-' {
        if len == 1 {
            return Err(IntErrorKind::InvalidDigit);
        }
        start = 1;
        negative = first == '-';
    }
    let ghost s: Seq<char> = text@;
    assert(spec_parse_i64(s) == scan_digits(s.skip(start as int), negative, 0)) by {
        assert(s.skip(0) =~= s);
    }
    let mut acc: i64 = 0;
    let mut i: usize = start;
    while i < len
        invariant
            s == text@,
            len == s.len(),
            start <= i <= len,
            spec_parse_i64(s) == scan_digits(s.skip(i as int), negative, acc as int),
        decreases len - i,
    {
        let c: char = text.get_char(i);
        assert(s.skip(i as int)[0] == c);
        assert(s.skip(i as int).skip(1) =~= s.skip(i + 1));
        if !('0' <= c && c <= '9') {
            return Err(IntErrorKind::InvalidDigit);
        }
        let d: i128 = (c as u32 - '0' as u32) as i128;
        let next: i128 = if negative { acc as i128 * 10 - d } else { acc as i128 * 10 + d };
        if next > i64::MAX as i128 {
            return Err(IntErrorKind::PosOverflow);
        }
        if next < i64::MIN as i128 {
            return Err(IntErrorKind::NegOverflow);
        }
        acc = next as i64;
        i = i + 1;
    }
    assert(s.skip(len as int).len() == 0);
    Ok(acc)
}

/// The value of a single digit character: what the clock draws for one
/// position of the time.
pub fn digit_of(c: char) -> (r: Option<usize>)
    ensures
        r is Some <==> is_digit(c),
        r matches Some(d) ==> d == digit_value(c) && d < 10,
{
    if '0' <= c && c <= '9' {
        Some((c as u32 - '0' as u32) as usize)
    } else {
        None
    }
}

} // verus!
