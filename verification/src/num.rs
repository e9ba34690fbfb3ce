//! Unsigned integers read from and written as digit strings.
use vstd::prelude::*;

verus! {

/// Why a digit string is not an unsigned integer, as `IntErrorKind` reports it.
#[derive(Debug, Clone, Copy, PartialEq, Eq)]
pub enum NumError {
    Empty,
    InvalidDigit,
    Overflow,
}

/// The text that `ParseIntError` displays for an error kind.
pub open spec fn num_error_text(e: NumError) -> Seq<char> {
    match e {
        NumError::Empty => "cannot parse integer from empty string"@,
        NumError::InvalidDigit => "invalid digit found in string"@,
        NumError::Overflow => "number too large to fit in target type"@,
    }
}

impl NumError {
    /// The text that `ParseIntError` displays for this kind.
    pub fn message(&self) -> (s: &'static str)
        ensures
            s@ == num_error_text(*self),
    {
        match self {
            NumError::Empty => "cannot parse integer from empty string",
            NumError::InvalidDigit => "invalid digit found in string",
            NumError::Overflow => "number too large to fit in target type",
        }
    }
}

/// The value of `c` as a digit in base `radix` (10 or 16), as `char::to_digit` gives it.
pub open spec fn digit_value(c: char, radix: nat) -> Option<nat> {
    if '0' <= c <= '9' {
        Some((c as u32 - '0' as u32) as nat)
    } else if radix == 16 && 'a' <= c <= 'f' {
        Some((c as u32 - 'a' as u32 + 10) as nat)
    } else if radix == 16 && 'A' <= c <= 'F' {
        Some((c as u32 - 'A' as u32 + 10) as nat)
    } else {
        None
    }
}

/// The digits of `s` read left to right in base `radix`, failing at the first
/// character that is no digit or at the first digit that takes the value past `max`.
pub open spec fn digits_fold(s: Seq<char>, radix: nat, max: nat) -> Result<nat, NumError>
    decreases s.len(),
{
    if s.len() == 0 {
        Ok(0)
    } else {
        match digits_fold(s.drop_last(), radix, max) {
            Err(e) => Err(e),
            Ok(v) => match digit_value(s.last(), radix) {
                None => Err(NumError::InvalidDigit),
                Some(d) => if v * radix + d > max {
                    Err(NumError::Overflow)
                } else {
                    Ok(v * radix + d)
                },
            },
        }
    }
}

/// `s` read as an unsigned integer of at most `max` in base `radix`, as `from_str_radix`
/// reads it: one leading `+` is allowed, and at least one digit must follow.
pub open spec fn parse_uint(s: Seq<char>, radix: nat, max: nat) -> Result<nat, NumError> {
    if s.len() == 0 {
        Err(NumError::Empty)
    } else if s[0] == '+' {
        if s.len() == 1 {
            Err(NumError::InvalidDigit)
        } else {
            digits_fold(s.drop_first(), radix, max)
        }
    } else {
        digits_fold(s, radix, max)
    }
}

pub proof fn lemma_digits_fold_bound(s: Seq<char>, radix: nat, max: nat)
    ensures
        digits_fold(s, radix, max) matches Ok(v) ==> v <= max,
    decreases s.len(),
{
    if s.len() > 0 {
        lemma_digits_fold_bound(s.drop_last(), radix, max);
    }
}

fn digit_of(c: char, radix: u32) -> (r: Option<u32>)
    requires
        radix == 10 || radix == 16,
    ensures
        r matches Some(d) ==> digit_value(c, radix as nat) == Some(d as nat) && d < radix,
        r is None ==> digit_value(c, radix as nat) is None,
{
    if '0' <= c && c <= '9' {
        Some(c as u32 - '0' as u32)
    } else if radix == 16 && 'a' <= c && c <= 'f' {
        Some(c as u32 - 'a' as u32 + 10)
    } else if radix == 16 && 'A' <= c && c <= 'F' {
        Some(c as u32 - 'A' as u32 + 10)
    } else {
        None
    }
}

proof fn lemma_overflow_test(v: int, r: int, d: int, max: int)
    by (nonlinear_arith)
    requires
        v >= 0,
        r > 0,
        d <= max,
    ensures
        (v > (max - d) / r) <==> (v * r + d > max),
{
}

/// `s` read as an unsigned integer of at most `max` in base `radix`.
pub fn parse_uint_slice(s: &[char], radix: u32, max: u128) -> (r: Result<u128, NumError>)
    requires
        radix == 10 || radix == 16,
    ensures
        r matches Ok(v) ==> parse_uint(s@, radix as nat, max as nat) == Ok::<nat, NumError>(
            v as nat,
        ),
        r matches Err(e) ==> parse_uint(s@, radix as nat, max as nat) == Err::<nat, NumError>(e),
{
    let n = s.len();
    if n == 0 {
        return Err(NumError::Empty);
    }
    let mut i: usize = 0;
    if s[0] == '+' {
        if n == 1 {
            return Err(NumError::InvalidDigit);
        }
        i = 1;
    }
    let start = i;
    let ghost body = s@.skip(start as int);
    assert(s[0] == '+' ==> body =~= s@.drop_first());
    assert(s[0] != '+' ==> body =~= s@);
    let mut v: u128 = 0;
    assert(parse_uint(s@, radix as nat, max as nat) == digits_fold(body, radix as nat, max as nat));
    assert(body.take(0) =~= Seq::<char>::empty());
    while i < n
        invariant
            n == s@.len(),
            i <= n,
            start <= i,
            start <= 1,
            body == s@.skip(start as int),
            parse_uint(s@, radix as nat, max as nat) == digits_fold(body, radix as nat, max as nat),
            digits_fold(body.take(i - start), radix as nat, max as nat) == Ok::<
                nat,
                NumError,
            >(v as nat),
            radix == 10 || radix == 16,
        decreases n - i,
    {
        let ghost j = i - start;
        assert(body.take(j + 1).drop_last() =~= body.take(j));
        assert(body[j] == s@[i as int]);
        assert(body.take(j + 1).last() == s@[i as int]);
        match digit_of(s[i], radix) {
            None => {
                proof {
                    assert(digits_fold(body.take(j + 1), radix as nat, max as nat) == Err::<nat, NumError>(NumError::InvalidDigit));
                    lemma_digits_fold_prefix_err(body, j + 1, radix as nat, max as nat);
                }
                return Err(NumError::InvalidDigit);
            },
            Some(d) => {
                let r = radix as u128;
                let d = d as u128;
                if d > max || v > (max - d) / r {
                    proof {
                        if d <= max {
                            lemma_overflow_test(v as int, r as int, d as int, max as int);
                        } else {
                            assert(v * r + d > max) by (nonlinear_arith)
                                requires
                                    d > max,
                                    v >= 0,
                                    r > 0,
                            ;
                        }
                        assert(digits_fold(body.take(j + 1), radix as nat, max as nat) == Err::<nat, NumError>(NumError::Overflow));
                        lemma_digits_fold_prefix_err(body, j + 1, radix as nat, max as nat);
                    }
                    return Err(NumError::Overflow);
                }
                proof {
                    lemma_overflow_test(v as int, r as int, d as int, max as int);
                }
                v = v * r + d;
            },
        }
        i = i + 1;
    }
    assert(body.take(body.len() as int) =~= body);
    Ok(v)
}

/// Once a prefix of the digits fails, the whole fails the same way.
pub proof fn lemma_digits_fold_prefix_err(s: Seq<char>, k: int, radix: nat, max: nat)
    requires
        0 <= k <= s.len(),
        digits_fold(s.take(k), radix, max) is Err,
    ensures
        digits_fold(s, radix, max) == digits_fold(s.take(k), radix, max),
    decreases s.len() - k,
{
    if k < s.len() {
        assert(s.take(k + 1).drop_last() =~= s.take(k));
        lemma_digits_fold_prefix_err(s, k + 1, radix, max);
    } else {
        assert(s.take(k) =~= s);
    }
}

/// The decimal digit character for `d < 10`.
pub open spec fn digit_char(d: nat) -> char {
    (('0' as u32) + d) as char
}

/// The decimal representation of `n`, without leading zeros.
pub open spec fn decimal(n: nat) -> Seq<char>
    decreases n,
{
    if n < 10 {
        seq![digit_char(n)]
    } else {
        decimal(n / 10).push(digit_char(n % 10))
    }
}

/// Appends the decimal representation of `n` to `out`.
pub fn push_decimal(out: &mut Vec<char>, n: u64)
    ensures
        final(out)@ == old(out)@ + decimal(n as nat),
    decreases n,
{
    if n >= 10 {
        push_decimal(out, n / 10);
    }
    let d = (n % 10) as u8;
    let c = crate::text::char_from_ascii(48 + d);
    out.push(c);
    proof {
        if n < 10 {
            assert(decimal(n as nat) =~= seq![digit_char(n as nat)]);
        }
    }
}

} // verus!
