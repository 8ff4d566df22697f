//! Decimal formatting and parsing of the numeric arguments the interpreter
//! and the wire format use.

use vstd::prelude::*;

verus! {

/// The character for one decimal digit.
pub open spec fn digit_char(d: int) -> char {
    ((48 + d) as u8) as char
}

/// The decimal digits of `n`, most significant first.
pub open spec fn spec_udigits(n: nat) -> Seq<char>
    decreases n,
{
    if n < 10 {
        seq![digit_char(n as int)]
    } else {
        spec_udigits(n / 10) + seq![digit_char((n % 10) as int)]
    }
}

/// The decimal rendering of a signed integer.
pub open spec fn spec_int_str(n: int) -> Seq<char> {
    if n < 0 {
        seq!['-'] + spec_udigits((-n) as nat)
    } else {
        spec_udigits(n as nat)
    }
}

/// Appends the decimal digits of `n`.
pub fn push_udigits(n: u64, out: &mut Vec<char>)
    ensures
        final(out)@ == old(out)@ + spec_udigits(n as nat),
    decreases n,
{
    if n < 10 {
        out.push((48u8 + (n as u8)) as char);
        proof {
            assert(old(out)@.push(digit_char(n as int)) =~= old(out)@ + spec_udigits(n as nat));
        }
    } else {
        push_udigits(n / 10, out);
        out.push((48u8 + ((n % 10) as u8)) as char);
        proof {
            assert(old(out)@ + spec_udigits((n / 10) as nat) + seq![
                digit_char((n % 10) as int),
            ] =~= old(out)@ + spec_udigits(n as nat));
        }
    }
}

/// Renders an `i32` in decimal.
pub fn i32_to_chars(n: i32) -> (r: Vec<char>)
    ensures
        r@ == spec_int_str(n as int),
{
    let mut out: Vec<char> = Vec::new();
    if n < 0 {
        out.push('-');
        let mag = (-(n as i64)) as u64;
        push_udigits(mag, &mut out);
        proof {
            assert(seq!['-'] + spec_udigits((-(n as int)) as nat) =~= out@);
        }
    } else {
        push_udigits(n as u64, &mut out);
        proof {
            assert(Seq::<char>::empty() + spec_udigits(n as nat) =~= spec_udigits(n as nat));
        }
    }
    out
}

/// Renders a `usize` in decimal.
pub fn usize_to_chars(n: usize) -> (r: Vec<char>)
    ensures
        r@ == spec_udigits(n as nat),
{
    let mut out: Vec<char> = Vec::new();
    push_udigits(n as u64, &mut out);
    proof {
        assert(Seq::<char>::empty() + spec_udigits(n as nat) =~= spec_udigits(n as nat));
    }
    out
}

/// A decimal digit character.
pub open spec fn is_digit(c: char) -> bool {
    48 <= (c as u32) <= 57
}

/// Its numeric value.
pub open spec fn digit_val(c: char) -> int {
    (c as u32) - 48
}

/// Every character a decimal digit.
pub open spec fn all_digits(s: Seq<char>) -> bool {
    forall|i: int| 0 <= i < s.len() ==> is_digit(s[i])
}

/// The value of a digit string, most significant digit first.
pub open spec fn digits_val(s: Seq<char>) -> int
    decreases s.len(),
{
    if s.len() == 0 {
        0
    } else {
        digits_val(s.drop_last()) * 10 + digit_val(s.last())
    }
}

pub proof fn lemma_digits_val_nonneg(s: Seq<char>)
    requires
        all_digits(s),
    ensures
        digits_val(s) >= 0,
    decreases s.len(),
{
    if s.len() > 0 {
        assert(all_digits(s.drop_last()));
        lemma_digits_val_nonneg(s.drop_last());
    }
}

/// What a scan of a digit run found.
pub enum DigitsScan {
    /// Some character is not a digit.
    NotDigits,
    /// All digits, with this exact value.
    Value(u64),
    /// All digits, with a value beyond `u64::MAX`.
    Big,
}

/// Reads the digit run `v[a..b]`, reporting its exact value when it fits a
/// `u64` and only a lower bound otherwise.
pub fn scan_digits(v: &Vec<char>, a: usize, b: usize) -> (r: DigitsScan)
    requires
        a <= b <= v@.len(),
    ensures
        ({
            let s = v@.subrange(a as int, b as int);
            match r {
                DigitsScan::NotDigits => !all_digits(s),
                DigitsScan::Value(x) => all_digits(s) && digits_val(s) == x,
                DigitsScan::Big => all_digits(s) && digits_val(s) > u64::MAX,
            }
        }),
{
    let mut acc: u64 = 0;
    let mut sat: bool = false;
    let mut k: usize = a;
    while k < b
        invariant
            a <= k <= b <= v@.len(),
            all_digits(v@.subrange(a as int, k as int)),
            !sat ==> acc == digits_val(v@.subrange(a as int, k as int)),
            sat ==> digits_val(v@.subrange(a as int, k as int)) > u64::MAX,
        decreases b - k,
    {
        let c = v[k];
        let u = c as u32;
        if !(48 <= u && u <= 57) {
            proof {
                let s = v@.subrange(a as int, b as int);
                assert(s[k - a] == v@[k as int]);
                assert(!is_digit(s[k - a]));
            }
            return DigitsScan::NotDigits;
        }
        let ghost prefix = v@.subrange(a as int, k as int);
        let ghost prefix2 = v@.subrange(a as int, k + 1 as int);
        proof {
            assert(prefix2.drop_last() =~= prefix);
            assert(prefix2.last() == v@[k as int]);
            assert forall|t: int| 0 <= t < prefix2.len() implies is_digit(prefix2[t]) by {
                if t < prefix.len() {
                    assert(prefix2[t] == prefix[t]);
                } else {
                    assert(prefix2[t] == v@[k as int]);
                }
            }
            lemma_digits_val_nonneg(prefix);
            assert(digits_val(prefix2) == digits_val(prefix) * 10 + digit_val(v@[k as int]));
        }
        let d = (u - 48) as u64;
        if !sat {
            if acc > (u64::MAX - d) / 10 {
                proof {
                    let m = (u64::MAX - d) as int;
                    assert(10 * (m / 10) + m % 10 == m) by (nonlinear_arith);
                    assert(m % 10 < 10) by (nonlinear_arith);
                    assert(acc * 10 >= (m / 10 + 1) * 10) by (nonlinear_arith)
                        requires
                            acc >= m / 10 + 1,
                    ;
                    assert(digits_val(prefix2) > u64::MAX);
                }
                sat = true;
            } else {
                proof {
                    let m = (u64::MAX - d) as int;
                    assert(acc * 10 <= (m / 10) * 10) by (nonlinear_arith)
                        requires
                            acc <= m / 10,
                    ;
                    assert(10 * (m / 10) + m % 10 == m) by (nonlinear_arith);
                    assert(m % 10 >= 0) by (nonlinear_arith);
                }
                acc = acc * 10 + d;
            }
        } else {
            proof {
                assert(digits_val(prefix) * 10 >= digits_val(prefix)) by (nonlinear_arith)
                    requires
                        digits_val(prefix) >= 0,
                ;
            }
        }
        k += 1;
    }
    proof {
        assert(v@.subrange(a as int, k as int) =~= v@.subrange(a as int, b as int));
    }
    if sat {
        DigitsScan::Big
    } else {
        DigitsScan::Value(acc)
    }
}

/// What `str::parse::<i32>` yields on this text: an optional sign, then
/// one or more digits, value within range.
pub open spec fn spec_parse_i32(s: Seq<char>) -> Option<int> {
    let signed = s.len() > 0 && (s[0] == '+' || s[0] == '-');
    let ds = if signed {
        s.drop_first()
    } else {
        s
    };
    let neg = s.len() > 0 && s[0] == '-';
    if ds.len() > 0 && all_digits(ds) {
        let v = if neg {
            -digits_val(ds)
        } else {
            digits_val(ds)
        };
        if -0x8000_0000 <= v <= 0x7FFF_FFFF {
            Some(v)
        } else {
            None
        }
    } else {
        None
    }
}

/// What `str::parse::<usize>` yields on this text.
pub open spec fn spec_parse_usize(s: Seq<char>) -> Option<int> {
    let signed = s.len() > 0 && s[0] == '+';
    let ds = if signed {
        s.drop_first()
    } else {
        s
    };
    if ds.len() > 0 && all_digits(ds) {
        if digits_val(ds) <= usize::MAX {
            Some(digits_val(ds))
        } else {
            None
        }
    } else {
        None
    }
}

/// Parses the characters `v[from..]` as an `i32`.
pub fn parse_i32_chars(v: &Vec<char>) -> (r: Option<i32>)
    ensures
        match r {
            Some(x) => spec_parse_i32(v@) == Some(x as int),
            None => spec_parse_i32(v@) is None,
        },
{
    let n = v.len();
    if n == 0 {
        return None;
    }
    let c0 = v[0];
    let signed = c0 == '+' || c0 == '-';
    let neg = c0 == '-';
    let start: usize = if signed {
        1
    } else {
        0
    };
    let ghost ds = if signed {
        v@.drop_first()
    } else {
        v@
    };
    proof {
        assert(ds =~= v@.subrange(start as int, n as int));
    }
    if start >= n {
        return None;
    }
    match scan_digits(v, start, n) {
        DigitsScan::NotDigits => None,
        DigitsScan::Big => {
            proof {
                lemma_digits_val_nonneg(ds);
            }
            None
        },
        DigitsScan::Value(x) => {
            if neg {
                if x <= 0x8000_0000u64 {
                    Some((-(x as i64)) as i32)
                } else {
                    None
                }
            } else {
                if x <= 0x7FFF_FFFFu64 {
                    Some(x as i32)
                } else {
                    None
                }
            }
        },
    }
}

/// Parses the characters of `v` as a `usize`.
pub fn parse_usize_chars(v: &Vec<char>) -> (r: Option<usize>)
    ensures
        match r {
            Some(x) => spec_parse_usize(v@) == Some(x as int),
            None => spec_parse_usize(v@) is None,
        },
{
    let n = v.len();
    if n == 0 {
        return None;
    }
    let signed = v[0] == '+';
    let start: usize = if signed {
        1
    } else {
        0
    };
    let ghost ds = if signed {
        v@.drop_first()
    } else {
        v@
    };
    proof {
        assert(ds =~= v@.subrange(start as int, n as int));
    }
    if start >= n {
        return None;
    }
    match scan_digits(v, start, n) {
        DigitsScan::NotDigits => None,
        DigitsScan::Big => None,
        DigitsScan::Value(x) => {
            if x <= usize::MAX as u64 {
                Some(x as usize)
            } else {
                None
            }
        },
    }
}

/// What a JSON integer lexeme denotes: an optional minus sign, then one or
/// more digits.
pub open spec fn spec_lex_int(s: Seq<char>) -> Option<int> {
    let neg = s.len() > 0 && s[0] == '-';
    let ds = if neg {
        s.drop_first()
    } else {
        s
    };
    if ds.len() > 0 && all_digits(ds) {
        Some(
            if neg {
                -digits_val(ds)
            } else {
                digits_val(ds)
            },
        )
    } else {
        None
    }
}

/// Decodes a JSON integer lexeme when it fits an `i64`.
pub fn lex_int_chars(v: &Vec<char>) -> (r: Option<i64>)
    ensures
        match r {
            Some(x) => spec_lex_int(v@) == Some(x as int),
            None => spec_lex_int(v@) is None || (spec_lex_int(v@) matches Some(y) && !(i64::MIN
                <= y <= i64::MAX)),
        },
{
    let n = v.len();
    if n == 0 {
        return None;
    }
    let neg = v[0] == '-';
    let start: usize = if neg {
        1
    } else {
        0
    };
    let ghost ds = if neg {
        v@.drop_first()
    } else {
        v@
    };
    proof {
        assert(ds =~= v@.subrange(start as int, n as int));
    }
    if start >= n {
        return None;
    }
    match scan_digits(v, start, n) {
        DigitsScan::NotDigits => None,
        DigitsScan::Big => {
            proof {
                lemma_digits_val_nonneg(ds);
            }
            None
        },
        DigitsScan::Value(x) => {
            if neg {
                if x < 0x8000_0000_0000_0000u64 {
                    Some(-(x as i64))
                } else if x == 0x8000_0000_0000_0000u64 {
                    Some(i64::MIN)
                } else {
                    None
                }
            } else {
                if x <= 0x7FFF_FFFF_FFFF_FFFFu64 {
                    Some(x as i64)
                } else {
                    None
                }
            }
        },
    }
}

/// A well-formed temperature argument, held in thousandths.
///
/// The session stores temperatures as integer thousandths of the unit
/// interval, so an argument is accepted only up to three decimal places;
/// finer values are reported as malformed rather than silently rounded.
#[derive(Clone, Copy, Debug, PartialEq, Eq, Structural)]
pub enum TempArg {
    /// A value within `[0, 1]`, in thousandths.
    InRange(u32),
    /// A well-formed decimal outside `[0, 1]`.
    OutOfRange,
}

/// The scaled value of up to three fraction digits, in thousandths.
pub open spec fn frac_scaled(fp: Seq<char>) -> int {
    if fp.len() == 0 {
        0
    } else if fp.len() == 1 {
        digits_val(fp) * 100
    } else if fp.len() == 2 {
        digits_val(fp) * 10
    } else {
        digits_val(fp)
    }
}

/// How a well-formed temperature of `mv` thousandths (negated when `neg`)
/// classifies against the unit interval.
pub open spec fn temp_result(neg: bool, mv: int) -> Option<TempArg> {
    if neg && mv > 0 {
        Some(TempArg::OutOfRange)
    } else if !(0 <= mv <= 1000) {
        Some(TempArg::OutOfRange)
    } else {
        Some(TempArg::InRange(mv as u32))
    }
}

/// An accepted temperature lies in the unit interval.
pub proof fn lemma_parse_temp_in_range(s: Seq<char>)
    ensures
        spec_parse_temp(s) matches Some(TempArg::InRange(t)) ==> t <= 1000,
{
}

/// What a temperature argument denotes: an optional sign, digits with at
/// most one point and at most three fraction digits; `None` when malformed.
pub open spec fn spec_parse_temp(s: Seq<char>) -> Option<TempArg> {
    let signed = s.len() > 0 && (s[0] == '+' || s[0] == '-');
    let neg = s.len() > 0 && s[0] == '-';
    let ds = if signed {
        s.drop_first()
    } else {
        s
    };
    match crate::text::find_from(ds, '.', 0) {
        None => if ds.len() > 0 && all_digits(ds) {
            temp_result(neg, digits_val(ds) * 1000)
        } else {
            None
        },
        Some(j) => {
            let ip = ds.subrange(0, j);
            let fp = ds.subrange(j + 1, ds.len() as int);
            if ip.len() + fp.len() > 0 && all_digits(ip) && all_digits(fp) && fp.len() <= 3 {
                temp_result(neg, digits_val(ip) * 1000 + frac_scaled(fp))
            } else {
                None
            }
        },
    }
}

/// Ten to the given power.
pub open spec fn pow10(n: nat) -> int
    decreases n,
{
    if n == 0 {
        1
    } else {
        10 * pow10((n - 1) as nat)
    }
}

pub proof fn lemma_digits_val_pow(s: Seq<char>)
    requires
        all_digits(s),
    ensures
        digits_val(s) < pow10(s.len()),
    decreases s.len(),
{
    if s.len() > 0 {
        assert(all_digits(s.drop_last()));
        lemma_digits_val_pow(s.drop_last());
        assert(digit_val(s.last()) <= 9);
    }
}

pub proof fn lemma_digits_val_le3(s: Seq<char>)
    requires
        all_digits(s),
        s.len() <= 3,
    ensures
        digits_val(s) <= 999,
{
    lemma_digits_val_pow(s);
    lemma_digits_val_nonneg(s);
    assert(pow10(0) == 1);
    assert(pow10(1) == 10);
    assert(pow10(2) == 100);
    assert(pow10(3) == 1000);
}

/// Parses the characters of `v` as a temperature argument.
pub fn parse_temp_chars(v: &Vec<char>) -> (r: Option<TempArg>)
    ensures
        r == spec_parse_temp(v@),
{
    let n = v.len();
    let (signed, neg) = if n > 0 {
        let c0 = v[0];
        (c0 == '+' || c0 == '-', c0 == '-')
    } else {
        (false, false)
    };
    let start: usize = if signed {
        1
    } else {
        0
    };
    let ghost ds = if signed {
        v@.drop_first()
    } else {
        v@
    };
    proof {
        assert(ds =~= v@.subrange(start as int, n as int));
    }
    let dot = crate::text::find_char_from(v, '.', start);
    let (ip_a, ip_b, fp_a, fp_b): (usize, usize, usize, usize) = match dot {
        None => (start, n, n, n),
        Some(j) => (start, j, j + 1, n),
    };
    proof {
        crate::text::lemma_find_from_props(v@, '.', start as int);
        match dot {
            None => {
                assert forall|k: int| 0 <= k < ds.len() implies ds[k] != '.' by {
                    assert(ds[k] == v@[start + k]);
                }
                crate::text::lemma_find_from_none(ds, '.', 0);
            },
            Some(j) => {
                assert(ds[j - start] == v@[j as int]);
                assert forall|k: int| 0 <= k < j - start implies ds[k] != '.' by {
                    assert(ds[k] == v@[start + k]);
                }
                crate::text::lemma_find_from_some(ds, '.', 0, j - start);
                assert(ds.subrange(0, j - start) =~= v@.subrange(ip_a as int, ip_b as int));
                assert(ds.subrange(j - start + 1, ds.len() as int) =~= v@.subrange(
                    fp_a as int,
                    fp_b as int,
                ));
            },
        }
    }
    let ghost ip = v@.subrange(ip_a as int, ip_b as int);
    let ghost fp = v@.subrange(fp_a as int, fp_b as int);
    if ip_b - ip_a == 0 && fp_b - fp_a == 0 {
        return None;
    }
    if fp_b - fp_a > 3 {
        return None;
    }
    let fs: u64 = match scan_digits(v, fp_a, fp_b) {
        DigitsScan::NotDigits => {
            return None;
        },
        DigitsScan::Big => {
            proof {
                lemma_digits_val_le3(fp);
            }
            0
        },
        DigitsScan::Value(x) => {
            proof {
                lemma_digits_val_pow(fp);
                lemma_digits_val_nonneg(fp);
                assert(pow10(0) == 1);
                assert(pow10(1) == 10);
                assert(pow10(2) == 100);
                assert(pow10(3) == 1000);
            }
            match fp_b - fp_a {
                0 => 0,
                1 => x * 100,
                2 => x * 10,
                _ => x,
            }
        },
    };
    proof {
        assert(fs == frac_scaled(fp) && 0 <= frac_scaled(fp) <= 999) by {
            lemma_digits_val_pow(fp);
            lemma_digits_val_nonneg(fp);
            assert(pow10(0) == 1);
            assert(pow10(1) == 10);
            assert(pow10(2) == 100);
            assert(pow10(3) == 1000);
        }
    }
    match scan_digits(v, ip_a, ip_b) {
        DigitsScan::NotDigits => None,
        DigitsScan::Big => {
            proof {
                assert(digits_val(ip) * 1000 > 1000) by (nonlinear_arith)
                    requires
                        digits_val(ip) > u64::MAX,
                ;
            }
            Some(TempArg::OutOfRange)
        },
        DigitsScan::Value(x) => {
            proof {
                lemma_digits_val_nonneg(ip);
            }
            let mv_big = x >= 2;
            if neg && (x > 0 || fs > 0) {
                Some(TempArg::OutOfRange)
            } else if mv_big {
                proof {
                    assert(x * 1000 >= 2000) by (nonlinear_arith)
                        requires
                            x >= 2,
                    ;
                }
                Some(TempArg::OutOfRange)
            } else {
                let mv = x * 1000 + fs;
                if mv > 1000 {
                    Some(TempArg::OutOfRange)
                } else {
                    Some(TempArg::InRange(mv as u32))
                }
            }
        },
    }
}

/// Parses a string as an `i32`, as `str::parse` would.
pub fn parse_i32_str(s: &str) -> (r: Option<i32>)
    ensures
        match r {
            Some(x) => spec_parse_i32(s@) == Some(x as int),
            None => spec_parse_i32(s@) is None,
        },
{
    let cs = crate::text::str_to_chars(s);
    parse_i32_chars(&cs)
}

/// Parses a string as a temperature argument.
pub fn parse_temp_str(s: &str) -> (r: Option<TempArg>)
    ensures
        r == spec_parse_temp(s@),
{
    let cs = crate::text::str_to_chars(s);
    parse_temp_chars(&cs)
}

/// The canonical decimal rendering of a temperature of `mv` thousandths:
/// the integer part, then any nonzero fraction with trailing zeros dropped.
pub open spec fn spec_temp_str(mv: int) -> Seq<char> {
    spec_udigits((mv / 1000) as nat) + if mv % 1000 == 0 {
        Seq::<char>::empty()
    } else {
        seq!['.'] + spec_frac_digits(mv % 1000)
    }
}

/// Up to three fraction digits with trailing zeros dropped.
pub open spec fn spec_frac_digits(f: int) -> Seq<char> {
    let d1 = f / 100;
    let d2 = (f / 10) % 10;
    let d3 = f % 10;
    if d3 != 0 {
        seq![digit_char(d1), digit_char(d2), digit_char(d3)]
    } else if d2 != 0 {
        seq![digit_char(d1), digit_char(d2)]
    } else {
        seq![digit_char(d1)]
    }
}

/// Renders a temperature of `mv` thousandths in decimal.
pub fn temp_to_chars(mv: u32) -> (r: Vec<char>)
    requires
        mv <= 1000,
    ensures
        r@ == spec_temp_str(mv as int),
{
    let mut out: Vec<char> = Vec::new();
    push_udigits((mv / 1000) as u64, &mut out);
    let f = mv % 1000;
    if f != 0 {
        out.push('.');
        let d1 = (f / 100) as u8;
        let d2 = ((f / 10) % 10) as u8;
        let d3 = (f % 10) as u8;
        if d3 != 0 {
            out.push((48u8 + d1) as char);
            out.push((48u8 + d2) as char);
            out.push((48u8 + d3) as char);
        } else if d2 != 0 {
            out.push((48u8 + d1) as char);
            out.push((48u8 + d2) as char);
        } else {
            out.push((48u8 + d1) as char);
        }
        proof {
            assert(out@ =~= spec_temp_str(mv as int));
        }
    } else {
        proof {
            assert(out@ =~= spec_temp_str(mv as int));
        }
    }
    out
}

} // verus!
