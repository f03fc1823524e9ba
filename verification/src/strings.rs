//! Decimal text: rendering integers as strings and reading integers back.
//! These are the only numeric literal forms the reader and printer use.

use vstd::prelude::*;

verus! {

/// The decimal digit character for `d`.
pub open spec fn digit_char(d: int) -> char {
    if d == 0 {
        '0'
    } else if d == 1 {
        '1'
    } else if d == 2 {
        '2'
    } else if d == 3 {
        '3'
    } else if d == 4 {
        '4'
    } else if d == 5 {
        '5'
    } else if d == 6 {
        '6'
    } else if d == 7 {
        '7'
    } else if d == 8 {
        '8'
    } else {
        '9'
    }
}

/// The decimal rendering of `n`, most significant digit first.
pub open spec fn spec_digits(n: nat) -> Seq<char>
    decreases n,
{
    if n < 10 {
        seq![digit_char(n as int)]
    } else {
        spec_digits(n / 10) + seq![digit_char((n % 10) as int)]
    }
}

/// The decimal rendering of a signed integer: a minus sign before the
/// magnitude when negative.
pub open spec fn spec_int_digits(n: int) -> Seq<char> {
    if n < 0 {
        seq!['-'] + spec_digits((-n) as nat)
    } else {
        spec_digits(n as nat)
    }
}

/// The single-digit string for `d`.
fn digit_str(d: u64) -> (r: &'static str)
    requires
        d < 10,
    ensures
        r@ == seq![digit_char(d as int)],
{
    proof {
        reveal_strlit("0");
        reveal_strlit("1");
        reveal_strlit("2");
        reveal_strlit("3");
        reveal_strlit("4");
        reveal_strlit("5");
        reveal_strlit("6");
        reveal_strlit("7");
        reveal_strlit("8");
        reveal_strlit("9");
    }
    match d {
        0 => "0",
        1 => "1",
        2 => "2",
        3 => "3",
        4 => "4",
        5 => "5",
        6 => "6",
        7 => "7",
        8 => "8",
        _ => "9",
    }
}

/// Renders `n` in decimal.
pub fn fmt_u64(n: u64) -> (s: String)
    ensures
        s@ == spec_digits(n as nat),
    decreases n,
{
    if n < 10 {
        String::from_str(digit_str(n))
    } else {
        let prefix = fmt_u64(n / 10);
        prefix.concat(digit_str(n % 10))
    }
}

/// Renders `n` in decimal, with a minus sign when negative.
pub fn fmt_i64(n: i64) -> (s: String)
    ensures
        s@ == spec_int_digits(n as int),
{
    if n >= 0 {
        fmt_u64(n as u64)
    } else {
        // magnitude computed without negating i64::MIN
        let mag: u64 = ((-(n + 1)) as u64) + 1;
        proof {
            reveal_strlit("-");
        }
        let s = String::from_str("-");
        s.concat(fmt_u64(mag).as_str())
    }
}

/// The single digit zero renders as the zero character.
pub proof fn lemma_digits_zero()
    ensures
        spec_digits(0) == seq!['0'],
{
}

/// Whether `c` is a decimal digit.
pub open spec fn is_digit(c: char) -> bool {
    '0' <= c && c <= '9'
}

/// The numeric value of a digit character.
pub open spec fn digit_val(c: char) -> int {
    c as int - '0' as int
}

/// Whether `s` is one or more decimal digits and nothing else.
pub open spec fn all_digits(s: Seq<char>) -> bool {
    s.len() > 0 && forall|i: int| 0 <= i < s.len() ==> is_digit(#[trigger] s[i])
}

/// The unbounded value of a digit string, most significant digit first.
pub open spec fn digits_val(s: Seq<char>) -> nat
    decreases s.len(),
{
    if s.len() == 0 {
        0
    } else {
        digits_val(s.drop_last()) * 10 + digit_val(s.last()) as nat
    }
}

/// The digit string after an optional leading sign.
pub open spec fn sign_split(s: Seq<char>) -> (bool, Seq<char>) {
    if s.len() > 0 && (s[0] == '-' || s[0] == '+') {
        (s[0] == '-', s.skip(1))
    } else {
        (false, s)
    }
}

/// What reading `s` as a 32-bit signed decimal integer yields: an optional
/// sign, then digits only, and a value within range.
pub open spec fn spec_parse_i32(s: Seq<char>) -> Option<i32> {
    let (neg, body) = sign_split(s);
    if !all_digits(body) {
        None
    } else {
        let mag = digits_val(body) as int;
        if neg && -mag >= i32::MIN as int {
            Some((-mag) as i32)
        } else if !neg && mag <= i32::MAX as int {
            Some(mag as i32)
        } else {
            None
        }
    }
}

/// What reading `s` as an unsigned machine-word decimal integer yields.
pub open spec fn spec_parse_usize(s: Seq<char>) -> Option<usize> {
    let (neg, body) = sign_split(s);
    if neg || !all_digits(body) {
        None
    } else {
        let mag = digits_val(body) as int;
        if mag <= usize::MAX as int {
            Some(mag as usize)
        } else {
            None
        }
    }
}

/// A longer digit prefix never has a smaller value.
proof fn lemma_digits_val_monotone(s: Seq<char>, i: int, j: int)
    requires
        0 <= i <= j <= s.len(),
    ensures
        digits_val(s.take(i)) <= digits_val(s.take(j)),
    decreases j - i,
{
    if i < j {
        lemma_digits_val_monotone(s, i, j - 1);
        assert(s.take(j).drop_last() =~= s.take(j - 1));
        let prev = digits_val(s.take(j - 1));
        let d = digit_val(s.take(j).last()) as nat;
        assert(digits_val(s.take(j)) == prev * 10 + d);
        assert(prev <= prev * 10 + d) by (nonlinear_arith);
    }
}

/// Reads the digit run of `s` starting at `from`, capped at `cap`: `None`
/// when a non-digit appears or the value passes the cap.
fn parse_digits(s: &str, from: usize, cap: u64) -> (r: Option<u64>)
    requires
        from <= s@.len(),
        cap >= 9,
    ensures
        ({
            let body = s@.skip(from as int);
            match r {
                Some(v) => all_digits(body) && digits_val(body) == v && v <= cap,
                None => !all_digits(body) || digits_val(body) > cap,
            }
        }),
{
    let ghost body = s@.skip(from as int);
    let n = s.unicode_len();
    if from == n {
        assert(!all_digits(body));
        return None;
    }
    let mut acc: u64 = 0;
    let mut i: usize = from;
    while i < n
        invariant
            from <= i <= n,
            n == s@.len(),
            body == s@.skip(from as int),
            cap >= 9,
            acc <= cap,
            forall|k: int| 0 <= k < i - from ==> is_digit(#[trigger] body[k]),
            acc == digits_val(body.take(i - from)),
        decreases n - i,
    {
        let c = s.get_char(i);
        if c < '0' || c > '9' {
            assert(body[i - from] == c && !is_digit(c));
            return None;
        }
        let d: u64 = (c as u32 as u64) - ('0' as u32 as u64);
        assert(d == digit_val(c) && d <= 9);
        if acc > (cap - d) / 10 {
            proof {
                assert(acc * 10 + d > cap) by (nonlinear_arith)
                    requires
                        acc > (cap - d) / 10,
                        d <= 9,
                        d <= cap,
                        cap <= u64::MAX,
                ;
                assert(body.take(i + 1 - from).drop_last() =~= body.take(i - from));
                assert(digits_val(body.take(i + 1 - from)) > cap);
                lemma_digits_val_monotone(body, i + 1 - from, body.len() as int);
                assert(body.take(body.len() as int) =~= body);
            }
            return None;
        }
        proof {
            assert(acc <= (cap - d) / 10);
            assert(acc * 10 + d <= cap) by (nonlinear_arith)
                requires
                    acc <= (cap - d) / 10,
                    d <= cap,
                    cap <= u64::MAX,
            ;
            assert(body.take(i + 1 - from).drop_last() =~= body.take(i - from));
            assert(body.take(i + 1 - from).last() == c);
        }
        acc = acc * 10 + d;
        i = i + 1;
    }
    assert(body.take(i - from) =~= body);
    Some(acc)
}

/// Reads `s` as a 32-bit signed decimal integer: an optional sign, then
/// digits, rejecting anything else or any out-of-range value.
pub fn parse_i32(s: &str) -> (r: Option<i32>)
    ensures
        r == spec_parse_i32(s@),
{
    let n = s.unicode_len();
    let mut neg = false;
    let mut from: usize = 0;
    if n > 0 {
        let c = s.get_char(0);
        if c == '-' {
            neg = true;
            from = 1;
        } else if c == '+' {
            from = 1;
        }
    }
    assert((neg, s@.skip(from as int)) == sign_split(s@));
    match parse_digits(s, from, 2147483648) {
        None => None,
        Some(mag) => {
            if neg {
                if mag == 2147483648 {
                    Some(i32::MIN)
                } else {
                    Some(-(mag as i32))
                }
            } else {
                if mag <= 2147483647 {
                    Some(mag as i32)
                } else {
                    None
                }
            }
        },
    }
}

/// Reads `s` as an unsigned machine-word decimal integer.
pub fn parse_usize(s: &str) -> (r: Option<usize>)
    ensures
        r == spec_parse_usize(s@),
{
    let n = s.unicode_len();
    let mut from: usize = 0;
    if n > 0 {
        let c = s.get_char(0);
        if c == '-' {
            assert(sign_split(s@).0);
            return None;
        }
        if c == '+' {
            from = 1;
        }
    }
    assert((false, s@.skip(from as int)) == sign_split(s@));
    match parse_digits(s, from, usize::MAX as u64) {
        None => None,
        Some(mag) => Some(mag as usize),
    }
}

} // verus!
