//! Typed decoding of field values.  Every field read answers with text at
//! the ABI boundary; this layer decodes that text into an integer, a
//! duration (a count of milliseconds), or a timestamp in a fixed textual
//! pattern, each decode failing distinctly from an absent value.

use vstd::prelude::*;

use crate::c_w_string::string_push;
use crate::session::{MediaInfoError, MediaInfoResult};

verus! {

/// True for the ten ASCII decimal digits.
pub open spec fn is_digit_char(c: char) -> bool {
    0x30 <= c as u32 <= 0x39
}

/// The numeric value of one ASCII digit.
pub open spec fn digit_val(c: char) -> int {
    c as u32 - 0x30
}

/// True when every character of `s` is an ASCII decimal digit.
pub open spec fn all_digits(s: Seq<char>) -> bool {
    forall|i: int| 0 <= i < s.len() ==> is_digit_char(s[i])
}

/// The value of a digit run read as a base-ten numeral.
pub open spec fn digits_val(s: Seq<char>) -> int
    decreases s.len(),
{
    if s.len() == 0 {
        0
    } else {
        digits_val(s.drop_last()) * 10 + digit_val(s.last())
    }
}

/// A numeral of digits only is never negative.
proof fn lemma_digits_val_nonneg(s: Seq<char>)
    requires
        all_digits(s),
    ensures
        digits_val(s) >= 0,
    decreases s.len(),
{
    if s.len() > 0 {
        assert(all_digits(s.drop_last())) by {
            assert(forall|i: int| 0 <= i < s.len() - 1 ==> s.drop_last()[i] == s[i]);
        }
        lemma_digits_val_nonneg(s.drop_last());
    }
}

/// Reading one more digit multiplies the value so far by ten and adds it.
proof fn lemma_digits_val_step(s: Seq<char>, i: int)
    requires
        0 <= i < s.len(),
    ensures
        digits_val(s.take(i + 1)) == digits_val(s.take(i)) * 10 + digit_val(s[i]),
{
    assert(s.take(i + 1).drop_last() =~= s.take(i));
    assert(s.take(i + 1).last() == s[i]);
}

/// Parses the digit run of `s` from position `start` to the end, failing
/// on an empty run, a non-digit, or a value beyond `cap`.
fn parse_digit_run(s: &str, start: usize, cap: u64) -> (r: Option<u64>)
    requires
        start as int <= s@.len(),
        cap >= 9,
    ensures
        match r {
            Some(v) => {
                &&& s@.len() > start
                &&& all_digits(s@.skip(start as int))
                &&& v == digits_val(s@.skip(start as int))
                &&& v <= cap
            },
            None => {
                ||| s@.len() == start
                ||| !all_digits(s@.skip(start as int))
                ||| digits_val(s@.skip(start as int)) > cap
            },
        },
{
    let len = s.unicode_len();
    if start >= len {
        return None;
    }
    let ghost run = s@.skip(start as int);
    let mut acc: u64 = 0;
    let mut too_big: bool = false;
    let mut i: usize = start;
    while i < len
        invariant
            cap >= 9,
            start <= i <= len,
            start < len,
            len == s@.len(),
            run == s@.skip(start as int),
            forall|j: int| 0 <= j < i - start ==> is_digit_char(run[j]),
            !too_big ==> acc == digits_val(run.take(i - start)) && acc <= cap,
            too_big ==> digits_val(run.take(i - start)) > cap,
        decreases len - i,
    {
        let c = s.get_char(i);
        let cv = c as u32;
        proof {
            assert(run[i - start] == s@[i as int]);
        }
        if cv < 0x30 || cv > 0x39 {
            proof {
                assert(!is_digit_char(run[i - start]));
            }
            return None;
        }
        let d: u64 = (cv - 0x30) as u64;
        proof {
            lemma_digits_val_step(run, i - start);
            assert(digit_val(run[i - start]) == d);
            if too_big {
                assert(all_digits(run.take(i - start))) by {
                    assert(forall|j: int| 0 <= j < i - start ==> run.take(i - start)[j]
                        == run[j]);
                }
                lemma_digits_val_nonneg(run.take(i - start));
            }
        }
        if !too_big {
            proof {
                vstd::arithmetic::div_mod::lemma_fundamental_div_mod(
                    (cap - d) as int,
                    10,
                );
            }
            if acc > (cap - d) / 10 {
                too_big = true;
            } else {
                acc = acc * 10 + d;
            }
        } else {
            proof {
                assert(digits_val(run.take(i - start)) * 10 + d > cap);
            }
        }
        i = i + 1;
    }
    proof {
        assert(run.take(len - start) =~= run);
    }
    if too_big {
        None
    } else {
        Some(acc)
    }
}

/// The value a decimal numeral with an optional leading plus sign denotes,
/// when it is one and fits an unsigned sixty-four-bit integer.
pub open spec fn parse_u64_spec(s: Seq<char>) -> Option<int> {
    let digits = if s.len() > 0 && s[0] == '+' {
        s.drop_first()
    } else {
        s
    };
    if digits.len() == 0 || !all_digits(digits) {
        None
    } else if digits_val(digits) > u64::MAX {
        None
    } else {
        Some(digits_val(digits))
    }
}

/// Parses an unsigned decimal numeral, optional leading plus sign allowed.
pub fn parse_u64(s: &str) -> (r: Option<u64>)
    ensures
        match r {
            Some(v) => parse_u64_spec(s@) == Some(v as int),
            None => parse_u64_spec(s@) is None,
        },
{
    let len = s.unicode_len();
    if len == 0 {
        return None;
    }
    let start: usize = if s.get_char(0) == '+' {
        1
    } else {
        0
    };
    proof {
        if start == 1 {
            assert(s@.skip(1) =~= s@.drop_first());
        } else {
            assert(s@.skip(0) =~= s@);
        }
    }
    parse_digit_run(s, start, u64::MAX)
}

/// The value a decimal numeral with an optional sign denotes, when it is
/// one and fits a signed sixty-four-bit integer.
pub open spec fn parse_i64_spec(s: Seq<char>) -> Option<int> {
    if s.len() == 0 {
        None
    } else {
        let digits = if s[0] == '-' || s[0] == '+' {
            s.drop_first()
        } else {
            s
        };
        if digits.len() == 0 || !all_digits(digits) {
            None
        } else {
            let v = if s[0] == '-' {
                -digits_val(digits)
            } else {
                digits_val(digits)
            };
            if i64::MIN <= v <= i64::MAX {
                Some(v)
            } else {
                None
            }
        }
    }
}

/// Parses a signed decimal numeral, optional leading sign allowed.
pub fn parse_i64(s: &str) -> (r: Option<i64>)
    ensures
        match r {
            Some(v) => parse_i64_spec(s@) == Some(v as int),
            None => parse_i64_spec(s@) is None,
        },
{
    let len = s.unicode_len();
    if len == 0 {
        return None;
    }
    let c0 = s.get_char(0);
    let neg = c0 == '-';
    let start: usize = if c0 == '-' || c0 == '+' {
        1
    } else {
        0
    };
    proof {
        if start == 1 {
            assert(s@.skip(1) =~= s@.drop_first());
        } else {
            assert(s@.skip(0) =~= s@);
        }
    }
    let cap: u64 = if neg {
        0x8000_0000_0000_0000
    } else {
        0x7FFF_FFFF_FFFF_FFFF
    };
    match parse_digit_run(s, start, cap) {
        Some(v) => {
            if neg {
                if v == 0x8000_0000_0000_0000u64 {
                    Some(i64::MIN)
                } else {
                    Some(-(v as i64))
                }
            } else {
                Some(v as i64)
            }
        },
        None => None,
    }
}

/// A duration as an exact count of milliseconds, the unit in which the
/// engine reports durations.
#[derive(Debug, Clone, Copy, PartialEq, Eq, Structural)]
pub struct DurationMillis {
    pub millis: u64,
}

/// Decodes a fetched field as a signed integer: an upstream failure
/// passes through unchanged, and text that is no decimal numeral is the
/// non-numeric error.
pub fn result_to_i64(result: MediaInfoResult<String>) -> (r: MediaInfoResult<i64>)
    ensures
        match result {
            Err(e) => r == MediaInfoResult::<i64>::Err(e),
            Ok(t) => match r {
                Ok(x) => parse_i64_spec(t@) == Some(x as int),
                Err(e) => e == MediaInfoError::NonNumericResult && parse_i64_spec(t@) is None,
            },
        },
{
    match result {
        Ok(t) => match parse_i64(t.as_str()) {
            Some(x) => Ok(x),
            None => Err(MediaInfoError::NonNumericResult),
        },
        Err(e) => Err(e),
    }
}

/// Decodes a fetched field as a duration: the text is an unsigned count
/// of milliseconds.  An upstream failure passes through unchanged, and
/// text that is no decimal numeral is the non-numeric error.
pub fn result_to_duration(result: MediaInfoResult<String>) -> (r: MediaInfoResult<
    DurationMillis,
>)
    ensures
        match result {
            Err(e) => r == MediaInfoResult::<DurationMillis>::Err(e),
            Ok(t) => match r {
                Ok(d) => parse_u64_spec(t@) == Some(d.millis as int),
                Err(e) => e == MediaInfoError::NonNumericResult && parse_u64_spec(t@) is None,
            },
        },
{
    match result {
        Ok(t) => match parse_u64(t.as_str()) {
            Some(x) => Ok(DurationMillis { millis: x }),
            None => Err(MediaInfoError::NonNumericResult),
        },
        Err(e) => Err(e),
    }
}

/// True on leap years of the proleptic Gregorian calendar.
pub open spec fn is_leap_year(y: int) -> bool {
    y % 4 == 0 && (y % 100 != 0 || y % 400 == 0)
}

/// How many days the given month of the given year has.
pub open spec fn days_in_month(y: int, m: int) -> int {
    if m == 2 {
        if is_leap_year(y) {
            29
        } else {
            28
        }
    } else if m == 4 || m == 6 || m == 9 || m == 11 {
        30
    } else {
        31
    }
}

/// A calendar timestamp in universal time, held as plain field values.
#[derive(Debug, Clone, Copy, PartialEq, Eq, Structural)]
pub struct Timestamp {
    pub year: u16,
    pub month: u8,
    pub day: u8,
    pub hour: u8,
    pub minute: u8,
    pub second: u8,
}

impl Timestamp {
    /// A timestamp names a real calendar moment: a valid month, a day the
    /// month has, and a time of day.
    pub open spec fn wf(self) -> bool {
        &&& self.year <= 9999
        &&& 1 <= self.month <= 12
        &&& 1 <= self.day <= days_in_month(self.year as int, self.month as int)
        &&& self.hour <= 23
        &&& self.minute <= 59
        &&& self.second <= 59
    }
}

/// True when `s` has exactly the shape of the engine's timestamp texts:
/// four digits, dash, two digits, dash, two digits, space, two digits,
/// colon, two digits, colon, two digits, space, then the letters UTC.
pub open spec fn timestamp_pattern_ok(s: Seq<char>) -> bool {
    &&& s.len() == 23
    &&& is_digit_char(s[0]) && is_digit_char(s[1]) && is_digit_char(s[2]) && is_digit_char(
        s[3],
    )
    &&& s[4] == '-'
    &&& is_digit_char(s[5]) && is_digit_char(s[6])
    &&& s[7] == '-'
    &&& is_digit_char(s[8]) && is_digit_char(s[9])
    &&& s[10] == ' '
    &&& is_digit_char(s[11]) && is_digit_char(s[12])
    &&& s[13] == ':'
    &&& is_digit_char(s[14]) && is_digit_char(s[15])
    &&& s[16] == ':'
    &&& is_digit_char(s[17]) && is_digit_char(s[18])
    &&& s[19] == ' '
    &&& s[20] == 'U'
    &&& s[21] == 'T'
    &&& s[22] == 'C'
}

/// The timestamp a well-shaped text denotes, before calendar validity.
pub open spec fn timestamp_of_text(s: Seq<char>) -> Timestamp {
    Timestamp {
        year: (digit_val(s[0]) * 1000 + digit_val(s[1]) * 100 + digit_val(s[2]) * 10
            + digit_val(s[3])) as u16,
        month: (digit_val(s[5]) * 10 + digit_val(s[6])) as u8,
        day: (digit_val(s[8]) * 10 + digit_val(s[9])) as u8,
        hour: (digit_val(s[11]) * 10 + digit_val(s[12])) as u8,
        minute: (digit_val(s[14]) * 10 + digit_val(s[15])) as u8,
        second: (digit_val(s[17]) * 10 + digit_val(s[18])) as u8,
    }
}

/// The timestamp `s` denotes, when `s` matches the fixed pattern and
/// names a real calendar moment.
pub open spec fn parse_timestamp_spec(s: Seq<char>) -> Option<Timestamp> {
    if timestamp_pattern_ok(s) && timestamp_of_text(s).wf() {
        Some(timestamp_of_text(s))
    } else {
        None
    }
}

/// Reads the digit at position `i`, failing if the character there is no
/// digit.
fn read_digit(s: &str, i: usize) -> (r: Option<u8>)
    requires
        i < s@.len(),
    ensures
        match r {
            Some(d) => is_digit_char(s@[i as int]) && d == digit_val(s@[i as int]),
            None => !is_digit_char(s@[i as int]),
        },
{
    let cv = s.get_char(i) as u32;
    if 0x30 <= cv && cv <= 0x39 {
        Some((cv - 0x30) as u8)
    } else {
        None
    }
}

/// How many days the month has, executable form.
fn days_in_month_exec(year: u16, month: u8) -> (r: u8)
    ensures
        r == days_in_month(year as int, month as int),
{
    if month == 2 {
        if year % 4 == 0 && (year % 100 != 0 || year % 400 == 0) {
            29
        } else {
            28
        }
    } else if month == 4 || month == 6 || month == 9 || month == 11 {
        30
    } else {
        31
    }
}

/// Parses the engine's fixed timestamp pattern, rejecting any text of
/// another shape and any date the calendar does not have.
pub fn parse_timestamp(s: &str) -> (r: Option<Timestamp>)
    ensures
        match r {
            Some(t) => parse_timestamp_spec(s@) == Some(t),
            None => parse_timestamp_spec(s@) is None,
        },
{
    if s.unicode_len() != 23 {
        return None;
    }
    let d0 = match read_digit(s, 0) {
        Some(d) => d,
        None => {
            return None;
        },
    };
    let d1 = match read_digit(s, 1) {
        Some(d) => d,
        None => {
            return None;
        },
    };
    let d2 = match read_digit(s, 2) {
        Some(d) => d,
        None => {
            return None;
        },
    };
    let d3 = match read_digit(s, 3) {
        Some(d) => d,
        None => {
            return None;
        },
    };
    if s.get_char(4) != '-' {
        return None;
    }
    let d5 = match read_digit(s, 5) {
        Some(d) => d,
        None => {
            return None;
        },
    };
    let d6 = match read_digit(s, 6) {
        Some(d) => d,
        None => {
            return None;
        },
    };
    if s.get_char(7) != '-' {
        return None;
    }
    let d8 = match read_digit(s, 8) {
        Some(d) => d,
        None => {
            return None;
        },
    };
    let d9 = match read_digit(s, 9) {
        Some(d) => d,
        None => {
            return None;
        },
    };
    if s.get_char(10) != ' ' {
        return None;
    }
    let d11 = match read_digit(s, 11) {
        Some(d) => d,
        None => {
            return None;
        },
    };
    let d12 = match read_digit(s, 12) {
        Some(d) => d,
        None => {
            return None;
        },
    };
    if s.get_char(13) != ':' {
        return None;
    }
    let d14 = match read_digit(s, 14) {
        Some(d) => d,
        None => {
            return None;
        },
    };
    let d15 = match read_digit(s, 15) {
        Some(d) => d,
        None => {
            return None;
        },
    };
    if s.get_char(16) != ':' {
        return None;
    }
    let d17 = match read_digit(s, 17) {
        Some(d) => d,
        None => {
            return None;
        },
    };
    let d18 = match read_digit(s, 18) {
        Some(d) => d,
        None => {
            return None;
        },
    };
    if s.get_char(19) != ' ' {
        return None;
    }
    if s.get_char(20) != 'U' || s.get_char(21) != 'T' || s.get_char(22) != 'C' {
        return None;
    }
    let year: u16 = d0 as u16 * 1000 + d1 as u16 * 100 + d2 as u16 * 10 + d3 as u16;
    let month: u8 = d5 * 10 + d6;
    let day: u8 = d8 * 10 + d9;
    let hour: u8 = d11 * 10 + d12;
    let minute: u8 = d14 * 10 + d15;
    let second: u8 = d17 * 10 + d18;
    if month < 1 || month > 12 {
        return None;
    }
    if day < 1 || day > days_in_month_exec(year, month) {
        return None;
    }
    if hour > 23 || minute > 59 || second > 59 {
        return None;
    }
    Some(Timestamp { year, month, day, hour, minute, second })
}

/// Decodes a fetched field as a timestamp in the engine's fixed pattern:
/// an upstream failure passes through unchanged, and text of any other
/// shape is the non-numeric error.
pub fn result_to_date(result: MediaInfoResult<String>) -> (r: MediaInfoResult<Timestamp>)
    ensures
        match result {
            Err(e) => r == MediaInfoResult::<Timestamp>::Err(e),
            Ok(t) => match r {
                Ok(ts) => parse_timestamp_spec(t@) == Some(ts),
                Err(e) => e == MediaInfoError::NonNumericResult && parse_timestamp_spec(
                    t@,
                ) is None,
            },
        },
{
    match result {
        Ok(t) => match parse_timestamp(t.as_str()) {
            Some(ts) => Ok(ts),
            None => Err(MediaInfoError::NonNumericResult),
        },
        Err(e) => Err(e),
    }
}

/// The decimal digit character for one value.
pub open spec fn digit_char_of(d: int) -> char {
    if d == 0 {
        '0'
    } else if d == 1 {
        '1'
    } else if d == 2 {
        '2'
    } else if d == 3 {
        '3'
    } else if d == 4 {
        '4'
    } else if d == 5 {
        '5'
    } else if d == 6 {
        '6'
    } else if d == 7 {
        '7'
    } else if d == 8 {
        '8'
    } else {
        '9'
    }
}

/// The decimal numeral of a nonnegative value.
pub open spec fn dec_digits(n: int) -> Seq<char>
    decreases n,
{
    if n < 10 {
        seq![digit_char_of(n)]
    } else {
        dec_digits(n / 10).push(digit_char_of(n % 10))
    }
}

/// The decimal numeral of a signed value, minus sign included.
pub open spec fn dec_i64(v: int) -> Seq<char> {
    if v < 0 {
        seq!['-'] + dec_digits(-v)
    } else {
        dec_digits(v)
    }
}

/// The composed frame-size text: the width, the letter x, the height.
pub open spec fn frame_size_text(width: int, height: int) -> Seq<char> {
    dec_i64(width) + seq!['x'] + dec_i64(height)
}

/// The character of one decimal digit, executable form.
fn digit_char_exec(d: u64) -> (r: char)
    requires
        d < 10,
    ensures
        r == digit_char_of(d as int),
{
    match d {
        0 => '0',
        1 => '1',
        2 => '2',
        3 => '3',
        4 => '4',
        5 => '5',
        6 => '6',
        7 => '7',
        8 => '8',
        _ => '9',
    }
}

/// Appends the decimal numeral of `n`.
fn push_u64_digits(out: &mut String, n: u64)
    ensures
        final(out)@ == old(out)@ + dec_digits(n as int),
    decreases n,
{
    let ghost pre = out@;
    if n < 10 {
        string_push(out, digit_char_exec(n));
        proof {
            assert(out@ =~= pre + dec_digits(n as int));
        }
    } else {
        push_u64_digits(out, n / 10);
        let ghost mid = out@;
        string_push(out, digit_char_exec(n % 10));
        proof {
            assert(mid == pre + dec_digits((n / 10) as int));
            assert(out@ =~= pre + dec_digits(n as int));
        }
    }
}

/// Appends the decimal numeral of `v`, minus sign included.
fn push_i64_digits(out: &mut String, v: i64)
    ensures
        final(out)@ == old(out)@ + dec_i64(v as int),
{
    let ghost pre = out@;
    if v < 0 {
        string_push(out, '-');
        let m: u64 = if v == i64::MIN {
            0x8000_0000_0000_0000u64
        } else {
            (-v) as u64
        };
        push_u64_digits(out, m);
        proof {
            assert(m as int == -(v as int));
            assert(out@ =~= pre + dec_i64(v as int));
        }
    } else {
        push_u64_digits(out, v as u64);
    }
}

/// Composes a width and a height into the engine-style WxH text.
pub fn frame_size_string(width: i64, height: i64) -> (r: String)
    ensures
        r@ == frame_size_text(width as int, height as int),
{
    let mut out = String::new();
    push_i64_digits(&mut out, width);
    string_push(&mut out, 'x');
    push_i64_digits(&mut out, height);
    proof {
        assert(out@ =~= frame_size_text(width as int, height as int));
    }
    out
}

} // verus!
