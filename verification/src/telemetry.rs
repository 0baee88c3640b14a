use vstd::prelude::*;
use vstd::string::StringSliceAdditionalSpecFns;

verus! {

// Byte values of the JSON structural characters.
pub const B_QUOTE: u8 = 0x22;
pub const B_BACKSLASH: u8 = 0x5c;
pub const B_LBRACE: u8 = 0x7b;
pub const B_RBRACE: u8 = 0x7d;
pub const B_LBRACKET: u8 = 0x5b;
pub const B_RBRACKET: u8 = 0x5d;
pub const B_COLON: u8 = 0x3a;
pub const B_COMMA: u8 = 0x2c;
pub const B_MINUS: u8 = 0x2d;
pub const B_PLUS: u8 = 0x2b;
pub const B_DOT: u8 = 0x2e;
pub const B_ZERO: u8 = 0x30;
pub const B_NINE: u8 = 0x39;
pub const B_LOWER_E: u8 = 0x65;
pub const B_UPPER_E: u8 = 0x45;
pub const B_LOWER_U: u8 = 0x75;
pub const B_LOWER_T: u8 = 0x74;
pub const B_LOWER_F: u8 = 0x66;
pub const B_LOWER_N: u8 = 0x6e;

/// A decimal number as the telemetry reports it: the digits of the mantissa
/// folded into a saturating 64-bit value, and a power-of-ten exponent, so that
/// the number is (-1 if negative) * mantissa * 10^exp10. Saturation loses
/// precision only beyond 19 significant digits; it never turns a nonzero
/// mantissa into zero, so positivity is exact.
#[derive(Clone, Copy, Debug, PartialEq, Eq, Structural)]
pub struct HashRate {
    pub negative: bool,
    pub mantissa: u64,
    pub exp10: i64,
}

/// The rate that stands in for an absent or failed reading.
pub open spec fn spec_zero_rate() -> HashRate {
    HashRate { negative: false, mantissa: 0, exp10: 0 }
}

impl HashRate {
    /// Whether the reported number is strictly greater than zero.
    pub open spec fn spec_is_positive(self) -> bool {
        !self.negative && self.mantissa > 0
    }

    pub fn is_positive(&self) -> (r: bool)
        ensures
            r == self.spec_is_positive(),
    {
        !self.negative && self.mantissa > 0
    }

    pub fn zero() -> (r: HashRate)
        ensures
            r == spec_zero_rate(),
    {
        HashRate { negative: false, mantissa: 0, exp10: 0 }
    }
}

/// One windowed-average entry of the telemetry: both windows are optional and
/// absent until the worker has enough history.
#[derive(Clone, Copy, Debug, PartialEq, Eq, Structural)]
pub struct AverageHashrate {
    pub ten_seconds: Option<HashRate>,
    pub one_minute: Option<HashRate>,
}

pub open spec fn is_ws(b: u8) -> bool {
    b == 0x20 || b == 0x09 || b == 0x0a || b == 0x0d
}

pub open spec fn is_digit(b: u8) -> bool {
    B_ZERO <= b <= B_NINE
}

pub open spec fn is_hex_digit(b: u8) -> bool {
    is_digit(b) || (0x61 <= b <= 0x66) || (0x41 <= b <= 0x46)
}

/// An escape character that may follow a backslash, besides `u`.
pub open spec fn is_simple_escape(b: u8) -> bool {
    b == B_QUOTE || b == B_BACKSLASH || b == 0x2f || b == 0x62 || b == B_LOWER_F || b
        == B_LOWER_N || b == 0x72 || b == B_LOWER_T
}

/// The first position at or after `i` that does not hold whitespace.
pub open spec fn spec_skip_ws(s: Seq<u8>, i: int) -> int
    decreases s.len() - i,
{
    if 0 <= i < s.len() && is_ws(s[i]) {
        spec_skip_ws(s, i + 1)
    } else {
        i
    }
}

fn skip_ws(s: &[u8], i: usize) -> (r: usize)
    requires
        i <= s@.len(),
    ensures
        r == spec_skip_ws(s@, i as int),
        i <= r <= s@.len(),
{
    let mut j = i;
    while j < s.len() && (s[j] == 0x20 || s[j] == 0x09 || s[j] == 0x0a || s[j] == 0x0d)
        invariant
            i <= j <= s@.len(),
            spec_skip_ws(s@, i as int) == spec_skip_ws(s@, j as int),
        decreases s@.len() - j,
    {
        j += 1;
    }
    j
}

/// Scans a string body from the position right after the opening quote:
/// validates the characters and escapes, and returns whether any escape
/// occurred together with the position right after the closing quote.
/// Escaped text is never matched against a known key, so the content of an
/// escape-free string is the raw byte range and nothing is decoded.
pub open spec fn spec_scan_string(s: Seq<u8>, i: int, esc: bool) -> Option<(bool, int)>
    decreases s.len() - i,
{
    if i < 0 || i >= s.len() {
        Option::None
    } else if s[i] == B_QUOTE {
        Option::Some((esc, i + 1))
    } else if s[i] == B_BACKSLASH {
        if i + 1 < s.len() && is_simple_escape(s[i + 1]) {
            spec_scan_string(s, i + 2, true)
        } else if i + 5 < s.len() && s[i + 1] == B_LOWER_U && is_hex_digit(s[i + 2])
            && is_hex_digit(s[i + 3]) && is_hex_digit(s[i + 4]) && is_hex_digit(s[i + 5]) {
            spec_scan_string(s, i + 6, true)
        } else {
            Option::None
        }
    } else if s[i] < 0x20 {
        Option::None
    } else {
        spec_scan_string(s, i + 1, esc)
    }
}

proof fn lemma_scan_string_bounds(s: Seq<u8>, i: int, esc: bool)
    requires
        0 <= i,
    ensures
        spec_scan_string(s, i, esc) matches Option::Some(r) ==> i < r.1 <= s.len(),
    decreases s.len() - i,
{
    if 0 <= i < s.len() {
        if s[i] == B_QUOTE {
        } else if s[i] == B_BACKSLASH {
            if i + 1 < s.len() && is_simple_escape(s[i + 1]) {
                lemma_scan_string_bounds(s, i + 2, true);
            } else if i + 5 < s.len() {
                lemma_scan_string_bounds(s, i + 6, true);
            }
        } else if s[i] < 0x20 {
        } else {
            lemma_scan_string_bounds(s, i + 1, esc);
        }
    }
}

fn is_hex_byte(b: u8) -> (r: bool)
    ensures
        r == is_hex_digit(b),
{
    (0x30 <= b && b <= 0x39) || (0x61 <= b && b <= 0x66) || (0x41 <= b && b <= 0x46)
}

fn scan_string(s: &[u8], i: usize) -> (r: Option<(bool, usize)>)
    requires
        i <= s@.len(),
    ensures
        match r {
            Option::Some((esc, j)) => Option::Some((esc, j as int)) == spec_scan_string(
                s@,
                i as int,
                false,
            ) && i < j <= s@.len(),
            Option::None => spec_scan_string(s@, i as int, false) is None,
        },
{
    proof {
        lemma_scan_string_bounds(s@, i as int, false);
    }
    let mut j = i;
    let mut esc = false;
    loop
        invariant
            i <= j <= s@.len(),
            spec_scan_string(s@, i as int, false) == spec_scan_string(s@, j as int, esc),
            spec_scan_string(s@, i as int, false) matches Option::Some(r) ==> i < r.1 <= s@.len(),
        decreases s@.len() - j,
    {
        if j >= s.len() {
            return Option::None;
        }
        let b = s[j];
        if b == B_QUOTE {
            return Option::Some((esc, j + 1));
        } else if b == B_BACKSLASH {
            if j + 1 < s.len() && {
                let e = s[j + 1];
                e == B_QUOTE || e == B_BACKSLASH || e == 0x2f || e == 0x62 || e == B_LOWER_F || e
                    == B_LOWER_N || e == 0x72 || e == B_LOWER_T
            } {
                j += 2;
                esc = true;
            } else if s.len() - j > 5 && s[j + 1] == B_LOWER_U && is_hex_byte(s[j + 2])
                && is_hex_byte(s[j + 3]) && is_hex_byte(s[j + 4]) && is_hex_byte(s[j + 5]) {
                j += 6;
                esc = true;
            } else {
                return Option::None;
            }
        } else if b < 0x20 {
            return Option::None;
        } else {
            j += 1;
        }
    }
}

/// The end of the run of decimal digits that starts at `i`.
pub open spec fn spec_digits_end(s: Seq<u8>, i: int) -> int
    decreases s.len() - i,
{
    if 0 <= i < s.len() && is_digit(s[i]) {
        spec_digits_end(s, i + 1)
    } else {
        i
    }
}

proof fn lemma_digits_end_bounds(s: Seq<u8>, i: int)
    requires
        0 <= i <= s.len(),
    ensures
        i <= spec_digits_end(s, i) <= s.len(),
        forall|k: int| i <= k < spec_digits_end(s, i) ==> is_digit(s[k]),
    decreases s.len() - i,
{
    if i < s.len() && is_digit(s[i]) {
        lemma_digits_end_bounds(s, i + 1);
    }
}

fn digits_end(s: &[u8], i: usize) -> (r: usize)
    requires
        i <= s@.len(),
    ensures
        r == spec_digits_end(s@, i as int),
        i <= r <= s@.len(),
{
    let mut j = i;
    while j < s.len() && 0x30 <= s[j] && s[j] <= 0x39
        invariant
            i <= j <= s@.len(),
            spec_digits_end(s@, i as int) == spec_digits_end(s@, j as int),
        decreases s@.len() - j,
    {
        j += 1;
    }
    j
}

/// One digit folded into a saturating base-ten mantissa.
pub open spec fn spec_sat_digit(acc: u64, b: u8) -> u64 {
    let v = acc * 10 + (b - B_ZERO);
    if v > u64::MAX {
        u64::MAX
    } else {
        v as u64
    }
}

/// The digits of `s[i..j]` folded left to right into a saturating mantissa.
pub open spec fn spec_fold_mantissa(s: Seq<u8>, i: int, j: int, acc: u64) -> u64
    decreases j - i,
{
    if i < j {
        spec_fold_mantissa(s, i + 1, j, spec_sat_digit(acc, s[i]))
    } else {
        acc
    }
}

fn fold_mantissa(s: &[u8], i: usize, j: usize, acc: u64) -> (r: u64)
    requires
        i <= j <= s@.len(),
        forall|k: int| i <= k < j ==> is_digit(s@[k]),
    ensures
        r == spec_fold_mantissa(s@, i as int, j as int, acc),
{
    let mut k = i;
    let mut a = acc;
    while k < j
        invariant
            i <= k <= j <= s@.len(),
            forall|m: int| i <= m < j ==> is_digit(s@[m]),
            spec_fold_mantissa(s@, i as int, j as int, acc) == spec_fold_mantissa(
                s@,
                k as int,
                j as int,
                a,
            ),
        decreases j - k,
    {
        let d = (s[k] - 0x30) as u64;
        a = match a.checked_mul(10) {
            Option::Some(x) => match x.checked_add(d) {
                Option::Some(y) => y,
                Option::None => u64::MAX,
            },
            Option::None => u64::MAX,
        };
        k += 1;
    }
    a
}

/// Clamps a mathematical integer into the signed 64-bit range.
pub open spec fn spec_clamp_i64(v: int) -> i64 {
    if v > i64::MAX {
        i64::MAX
    } else if v < i64::MIN {
        i64::MIN
    } else {
        v as i64
    }
}

/// The exponent of the parsed number: the explicit exponent (clamped), minus
/// one for each fractional digit, saturating in the signed 64-bit range.
pub open spec fn spec_number_exp(exp_negative: bool, exp_value: u64, frac_len: int) -> i64 {
    let base: int = if exp_negative {
        -(exp_value as int)
    } else {
        exp_value as int
    };
    spec_clamp_i64(base - frac_len)
}

/// A parsed JSON number starting at `i` (which must not be whitespace):
/// the `HashRate` it denotes and the position right after it. Follows the
/// JSON number grammar: optional minus, an integer part without leading
/// zeros, an optional fraction, an optional exponent.
pub open spec fn spec_parse_number(s: Seq<u8>, i: int) -> Option<(HashRate, int)> {
    if i < 0 || i >= s.len() {
        Option::None
    } else {
        let (neg, i1) = if s[i] == B_MINUS {
            (true, i + 1)
        } else {
            (false, i)
        };
        if i1 >= s.len() || !is_digit(s[i1]) {
            Option::None
        } else {
            let int_end = spec_digits_end(s, i1);
            if s[i1] == B_ZERO && int_end > i1 + 1 {
                Option::None
            } else {
                let (frac_lo, frac_hi) = if int_end < s.len() && s[int_end] == B_DOT {
                    (int_end + 1, spec_digits_end(s, int_end + 1))
                } else {
                    (int_end, int_end)
                };
                if frac_lo > frac_hi || (frac_lo != int_end && frac_hi == frac_lo) {
                    Option::None
                } else {
                    let after_frac = if frac_lo == int_end {
                        int_end
                    } else {
                        frac_hi
                    };
                    let mantissa = spec_fold_mantissa(
                        s,
                        frac_lo,
                        frac_hi,
                        spec_fold_mantissa(s, i1, int_end, 0),
                    );
                    if after_frac < s.len() && (s[after_frac] == B_LOWER_E || s[after_frac]
                        == B_UPPER_E) {
                        let (eneg, e1) = if after_frac + 1 < s.len() && s[after_frac + 1]
                            == B_MINUS {
                            (true, after_frac + 2)
                        } else if after_frac + 1 < s.len() && s[after_frac + 1] == B_PLUS {
                            (false, after_frac + 2)
                        } else {
                            (false, after_frac + 1)
                        };
                        let exp_end = spec_digits_end(s, e1);
                        if e1 >= s.len() || !is_digit(s[e1]) {
                            Option::None
                        } else {
                            let ev = spec_fold_mantissa(s, e1, exp_end, 0);
                            Option::Some(
                                (
                                    HashRate {
                                        negative: neg,
                                        mantissa,
                                        exp10: spec_number_exp(eneg, ev, frac_hi - frac_lo),
                                    },
                                    exp_end,
                                ),
                            )
                        }
                    } else {
                        Option::Some(
                            (
                                HashRate {
                                    negative: neg,
                                    mantissa,
                                    exp10: spec_number_exp(false, 0, frac_hi - frac_lo),
                                },
                                after_frac,
                            ),
                        )
                    }
                }
            }
        }
    }
}

fn clamp_i64(v: i128) -> (r: i64)
    ensures
        r == spec_clamp_i64(v as int),
{
    if v > i64::MAX as i128 {
        i64::MAX
    } else if v < i64::MIN as i128 {
        i64::MIN
    } else {
        v as i64
    }
}

fn parse_number(s: &[u8], i: usize) -> (r: Option<(HashRate, usize)>)
    requires
        i <= s@.len(),
    ensures
        match r {
            Option::Some((h, j)) => Option::Some((h, j as int)) == spec_parse_number(s@, i as int)
                && i < j <= s@.len(),
            Option::None => spec_parse_number(s@, i as int) is None,
        },
{
    if i >= s.len() {
        return Option::None;
    }
    let (neg, i1) = if s[i] == B_MINUS {
        (true, i + 1)
    } else {
        (false, i)
    };
    if i1 >= s.len() || !(0x30 <= s[i1] && s[i1] <= 0x39) {
        return Option::None;
    }
    let int_end = digits_end(s, i1);
    proof {
        lemma_digits_end_bounds(s@, i1 as int);
        lemma_digits_end_bounds(s@, i1 + 1 as int);
        assert(spec_digits_end(s@, i1 as int) == spec_digits_end(s@, i1 + 1));
    }
    if s[i1] == B_ZERO && int_end > i1 + 1 {
        return Option::None;
    }
    let (frac_lo, frac_hi) = if int_end < s.len() && s[int_end] == B_DOT {
        let fl = int_end + 1;
        let fh = digits_end(s, fl);
        proof {
            lemma_digits_end_bounds(s@, fl as int);
        }
        if fh == fl {
            return Option::None;
        }
        (fl, fh)
    } else {
        (int_end, int_end)
    };
    let after_frac = if frac_lo == int_end {
        int_end
    } else {
        frac_hi
    };
    let int_mantissa = fold_mantissa(s, i1, int_end, 0);
    let mantissa = fold_mantissa(s, frac_lo, frac_hi, int_mantissa);
    let frac_len = frac_hi - frac_lo;
    if after_frac < s.len() && (s[after_frac] == B_LOWER_E || s[after_frac] == B_UPPER_E) {
        let (eneg, e1) = if after_frac + 1 < s.len() && s[after_frac + 1] == B_MINUS {
            (true, after_frac + 2)
        } else if after_frac + 1 < s.len() && s[after_frac + 1] == B_PLUS {
            (false, after_frac + 2)
        } else {
            (false, after_frac + 1)
        };
        if e1 >= s.len() || !(0x30 <= s[e1] && s[e1] <= 0x39) {
            return Option::None;
        }
        let exp_end = digits_end(s, e1);
        proof {
            lemma_digits_end_bounds(s@, e1 as int);
            lemma_digits_end_bounds(s@, e1 + 1 as int);
            assert(spec_digits_end(s@, e1 as int) == spec_digits_end(s@, e1 + 1));
        }
        let ev = fold_mantissa(s, e1, exp_end, 0);
        let base: i128 = if eneg {
            -(ev as i128)
        } else {
            ev as i128
        };
        let exp10 = clamp_i64(base - frac_len as i128);
        Option::Some((HashRate { negative: neg, mantissa, exp10 }, exp_end))
    } else {
        let exp10 = clamp_i64(-(frac_len as i128));
        Option::Some((HashRate { negative: neg, mantissa, exp10 }, after_frac))
    }
}

/// Nesting budget for skipped values: members of the recognized objects may
/// hold arbitrary JSON, but only up to this depth.
pub const SKIP_DEPTH: u32 = 128;

/// Termination guard for positions handed back by an earlier parsing step:
/// parsing always advances, so the clamp never changes the position in fact,
/// but it lets every recursion measure decrease syntactically.
pub open spec fn next_pos(len: int, i: int, j: int) -> int {
    let a = if j > i {
        j
    } else {
        i + 1
    };
    if a > len {
        len
    } else {
        a
    }
}

/// Position right after the JSON value that starts at `i` (not whitespace),
/// or None when it is malformed or nested deeper than the budget `d`.
pub open spec fn spec_skip_value(s: Seq<u8>, i: int, d: nat) -> Option<int>
    decreases d, s.len() - i, 0int,
{
    if i < 0 || i >= s.len() {
        Option::None
    } else if s[i] == B_QUOTE {
        match spec_scan_string(s, i + 1, false) {
            Option::None => Option::None,
            Option::Some((esc, j)) => Option::Some(j),
        }
    } else if s[i] == B_LBRACE {
        if d == 0 {
            Option::None
        } else {
            spec_skip_object(s, i, (d - 1) as nat)
        }
    } else if s[i] == B_LBRACKET {
        if d == 0 {
            Option::None
        } else {
            spec_skip_array(s, i, (d - 1) as nat)
        }
    } else if s[i] == B_LOWER_T {
        if i + 4 <= s.len() && s[i + 1] == 0x72 && s[i + 2] == B_LOWER_U && s[i + 3] == B_LOWER_E {
            Option::Some(i + 4)
        } else {
            Option::None
        }
    } else if s[i] == B_LOWER_F {
        if i + 5 <= s.len() && s[i + 1] == 0x61 && s[i + 2] == 0x6c && s[i + 3] == 0x73 && s[i + 4]
            == B_LOWER_E {
            Option::Some(i + 5)
        } else {
            Option::None
        }
    } else if s[i] == B_LOWER_N {
        if i + 4 <= s.len() && s[i + 1] == B_LOWER_U && s[i + 2] == 0x6c && s[i + 3] == 0x6c {
            Option::Some(i + 4)
        } else {
            Option::None
        }
    } else if s[i] == B_MINUS || is_digit(s[i]) {
        match spec_parse_number(s, i) {
            Option::None => Option::None,
            Option::Some((h, j)) => Option::Some(j),
        }
    } else {
        Option::None
    }
}

/// Skips an object whose opening brace stands at `i`.
pub open spec fn spec_skip_object(s: Seq<u8>, i: int, d: nat) -> Option<int>
    decreases d, s.len() - i, 2int,
{
    if i < 0 || i >= s.len() {
        Option::None
    } else {
        let j = spec_skip_ws(s, i + 1);
        if 0 <= j < s.len() && s[j] == B_RBRACE {
            Option::Some(j + 1)
        } else {
            spec_skip_members(s, next_pos(s.len() as int, i, j), d)
        }
    }
}

/// Skips the members of an object from the first key (whitespace already
/// consumed) to the closing brace.
pub open spec fn spec_skip_members(s: Seq<u8>, i: int, d: nat) -> Option<int>
    decreases d, s.len() - i, 1int,
{
    if i < 0 || i >= s.len() || s[i] != B_QUOTE {
        Option::None
    } else {
        match spec_scan_string(s, i + 1, false) {
            Option::None => Option::None,
            Option::Some((esc, a)) => {
                let k = spec_skip_ws(s, a);
                if !(0 <= k < s.len() && s[k] == B_COLON) {
                    Option::None
                } else {
                    let v = next_pos(s.len() as int, i, spec_skip_ws(s, k + 1));
                    match spec_skip_value(s, v, d) {
                        Option::None => Option::None,
                        Option::Some(nj) => {
                            let c = spec_skip_ws(s, next_pos(s.len() as int, i, nj));
                            if 0 <= c < s.len() && s[c] == B_COMMA {
                                spec_skip_members(s, next_pos(s.len() as int, i, spec_skip_ws(s, c + 1)), d)
                            } else if 0 <= c < s.len() && s[c] == B_RBRACE {
                                Option::Some(c + 1)
                            } else {
                                Option::None
                            }
                        },
                    }
                }
            },
        }
    }
}

/// Skips an array whose opening bracket stands at `i`.
pub open spec fn spec_skip_array(s: Seq<u8>, i: int, d: nat) -> Option<int>
    decreases d, s.len() - i, 2int,
{
    if i < 0 || i >= s.len() {
        Option::None
    } else {
        let j = spec_skip_ws(s, i + 1);
        if 0 <= j < s.len() && s[j] == B_RBRACKET {
            Option::Some(j + 1)
        } else {
            spec_skip_elems(s, next_pos(s.len() as int, i, j), d)
        }
    }
}

/// Skips the elements of an array from the first element (whitespace already
/// consumed) to the closing bracket.
pub open spec fn spec_skip_elems(s: Seq<u8>, i: int, d: nat) -> Option<int>
    decreases d, s.len() - i, 1int,
{
    match spec_skip_value(s, i, d) {
        Option::None => Option::None,
        Option::Some(nj) => {
            let c = spec_skip_ws(s, next_pos(s.len() as int, i, nj));
            if 0 <= c < s.len() && s[c] == B_COMMA {
                spec_skip_elems(s, next_pos(s.len() as int, i, spec_skip_ws(s, c + 1)), d)
            } else if 0 <= c < s.len() && s[c] == B_RBRACKET {
                Option::Some(c + 1)
            } else {
                Option::None
            }
        },
    }
}

fn skip_value(s: &[u8], i: usize, d: u32) -> (r: Option<usize>)
    requires
        i <= s@.len(),
    ensures
        match r {
            Option::Some(j) => Option::Some(j as int) == spec_skip_value(s@, i as int, d as nat)
                && i < j <= s@.len(),
            Option::None => spec_skip_value(s@, i as int, d as nat) is None,
        },
    decreases d, 0int,
{
    if i >= s.len() {
        return Option::None;
    }
    let b = s[i];
    if b == B_QUOTE {
        match scan_string(s, i + 1) {
            Option::Some((esc, j)) => Option::Some(j),
            Option::None => Option::None,
        }
    } else if b == B_LBRACE {
        if d == 0 {
            Option::None
        } else {
            skip_object(s, i, d - 1)
        }
    } else if b == B_LBRACKET {
        if d == 0 {
            Option::None
        } else {
            skip_array(s, i, d - 1)
        }
    } else if b == B_LOWER_T {
        if s.len() - i >= 4 && s[i + 1] == 0x72 && s[i + 2] == B_LOWER_U && s[i + 3] == B_LOWER_E {
            Option::Some(i + 4)
        } else {
            Option::None
        }
    } else if b == B_LOWER_F {
        if s.len() - i >= 5 && s[i + 1] == 0x61 && s[i + 2] == 0x6c && s[i + 3] == 0x73 && s[i + 4]
            == B_LOWER_E {
            Option::Some(i + 5)
        } else {
            Option::None
        }
    } else if b == B_LOWER_N {
        if s.len() - i >= 4 && s[i + 1] == B_LOWER_U && s[i + 2] == 0x6c && s[i + 3] == 0x6c {
            Option::Some(i + 4)
        } else {
            Option::None
        }
    } else if b == B_MINUS || (0x30 <= b && b <= 0x39) {
        match parse_number(s, i) {
            Option::Some((h, j)) => Option::Some(j),
            Option::None => Option::None,
        }
    } else {
        Option::None
    }
}

fn skip_object(s: &[u8], i: usize, d: u32) -> (r: Option<usize>)
    requires
        i < s@.len(),
    ensures
        match r {
            Option::Some(j) => Option::Some(j as int) == spec_skip_object(s@, i as int, d as nat)
                && i < j <= s@.len(),
            Option::None => spec_skip_object(s@, i as int, d as nat) is None,
        },
    decreases d, 2int,
{
    let n = s.len();
    let j = skip_ws(s, i + 1);
    if j < n && s[j] == B_RBRACE {
        return Option::Some(j + 1);
    }
    skip_members(s, i, j, d)
}

fn skip_members(s: &[u8], base: usize, start: usize, d: u32) -> (r: Option<usize>)
    requires
        base < start <= s@.len(),
    ensures
        match r {
            Option::Some(j) => Option::Some(j as int) == spec_skip_members(
                s@,
                start as int,
                d as nat,
            ) && base < j <= s@.len(),
            Option::None => spec_skip_members(s@, start as int, d as nat) is None,
        },
    decreases d, 1int,
{
    let mut cur = start;
    loop
        invariant
            base < cur <= s@.len(),
            spec_skip_members(s@, start as int, d as nat) == spec_skip_members(
                s@,
                cur as int,
                d as nat,
            ),
        decreases s@.len() - cur,
    {
        if cur >= s.len() || s[cur] != B_QUOTE {
            return Option::None;
        }
        let (esc, a) = match scan_string(s, cur + 1) {
            Option::Some(p) => p,
            Option::None => {
                return Option::None;
            },
        };
        let k = skip_ws(s, a);
        if !(k < s.len() && s[k] == B_COLON) {
            return Option::None;
        }
        let v = skip_ws(s, k + 1);
        proof {
            assert(next_pos(s@.len() as int, cur as int, v as int) == v as int);
        }
        let nj = match skip_value(s, v, d) {
            Option::Some(nj) => nj,
            Option::None => {
                return Option::None;
            },
        };
        let c = skip_ws(s, nj);
        proof {
            assert(next_pos(s@.len() as int, cur as int, nj as int) == nj as int);
        }
        if c < s.len() && s[c] == B_COMMA {
            let nk = skip_ws(s, c + 1);
            proof {
                assert(next_pos(s@.len() as int, cur as int, nk as int) == nk as int);
            }
            cur = nk;
        } else if c < s.len() && s[c] == B_RBRACE {
            return Option::Some(c + 1);
        } else {
            return Option::None;
        }
    }
}

fn skip_array(s: &[u8], i: usize, d: u32) -> (r: Option<usize>)
    requires
        i < s@.len(),
    ensures
        match r {
            Option::Some(j) => Option::Some(j as int) == spec_skip_array(s@, i as int, d as nat)
                && i < j <= s@.len(),
            Option::None => spec_skip_array(s@, i as int, d as nat) is None,
        },
    decreases d, 2int,
{
    let n = s.len();
    let j = skip_ws(s, i + 1);
    if j < n && s[j] == B_RBRACKET {
        return Option::Some(j + 1);
    }
    skip_elems(s, i, j, d)
}

fn skip_elems(s: &[u8], base: usize, start: usize, d: u32) -> (r: Option<usize>)
    requires
        base < start <= s@.len(),
    ensures
        match r {
            Option::Some(j) => Option::Some(j as int) == spec_skip_elems(
                s@,
                start as int,
                d as nat,
            ) && base < j <= s@.len(),
            Option::None => spec_skip_elems(s@, start as int, d as nat) is None,
        },
    decreases d, 1int,
{
    let mut cur = start;
    loop
        invariant
            base < cur <= s@.len(),
            spec_skip_elems(s@, start as int, d as nat) == spec_skip_elems(
                s@,
                cur as int,
                d as nat,
            ),
        decreases s@.len() - cur,
    {
        let nj = match skip_value(s, cur, d) {
            Option::Some(nj) => nj,
            Option::None => {
                return Option::None;
            },
        };
        let c = skip_ws(s, nj);
        proof {
            assert(next_pos(s@.len() as int, cur as int, nj as int) == nj as int);
        }
        if c < s.len() && s[c] == B_COMMA {
            let nk = skip_ws(s, c + 1);
            proof {
                assert(next_pos(s@.len() as int, cur as int, nk as int) == nk as int);
            }
            cur = nk;
        } else if c < s.len() && s[c] == B_RBRACKET {
            return Option::Some(c + 1);
        } else {
            return Option::None;
        }
    }
}


/// The key bytes of the short-window average member.
pub open spec fn key_ten_seconds() -> Seq<u8> {
    "ten_seconds".spec_bytes()
}

/// The key bytes of the long-window average member.
pub open spec fn key_one_minute() -> Seq<u8> {
    "one_minute".spec_bytes()
}

/// The key bytes of the per-device map member.
pub open spec fn key_hashrate_per_device() -> Seq<u8> {
    "hashrate_per_device".spec_bytes()
}

/// The key bytes of the aggregate average member.
pub open spec fn key_total_hashrate() -> Seq<u8> {
    "total_hashrate".spec_bytes()
}

fn range_matches(s: &[u8], lo: usize, hi: usize, key: &[u8]) -> (r: bool)
    requires
        lo <= hi <= s@.len(),
    ensures
        r == (s@.subrange(lo as int, hi as int) == key@),
{
    if hi - lo != key.len() {
        proof {
            assert(s@.subrange(lo as int, hi as int).len() != key@.len());
        }
        return false;
    }
    let mut k: usize = 0;
    while k < key.len()
        invariant
            lo <= hi <= s@.len(),
            hi - lo == key@.len(),
            k <= key@.len(),
            forall|m: int| 0 <= m < k ==> s@[lo + m] == key@[m],
        decreases key@.len() - k,
    {
        if s[lo + k] != key[k] {
            proof {
                assert(s@.subrange(lo as int, hi as int)[k as int] != key@[k as int]);
            }
            return false;
        }
        k += 1;
    }
    proof {
        assert(s@.subrange(lo as int, hi as int) =~= key@);
    }
    true
}

/// A member value that must be a number or null: the telemetry's windowed
/// averages. Anything else fails the decode, as the typed schema demands.
pub open spec fn spec_parse_rate_opt(s: Seq<u8>, i: int) -> Option<(Option<HashRate>, int)> {
    if 0 <= i < s.len() && s[i] == B_LOWER_N {
        if i + 4 <= s.len() && s[i + 1] == B_LOWER_U && s[i + 2] == 0x6c && s[i + 3] == 0x6c {
            Option::Some((Option::None, i + 4))
        } else {
            Option::None
        }
    } else {
        match spec_parse_number(s, i) {
            Option::None => Option::None,
            Option::Some((h, j)) => Option::Some((Option::Some(h), j)),
        }
    }
}

fn parse_rate_opt(s: &[u8], i: usize) -> (r: Option<(Option<HashRate>, usize)>)
    requires
        i <= s@.len(),
    ensures
        match r {
            Option::Some((h, j)) => Option::Some((h, j as int)) == spec_parse_rate_opt(
                s@,
                i as int,
            ) && i < j <= s@.len(),
            Option::None => spec_parse_rate_opt(s@, i as int) is None,
        },
{
    if i < s.len() && s[i] == B_LOWER_N {
        if s.len() - i >= 4 && s[i + 1] == B_LOWER_U && s[i + 2] == 0x6c && s[i + 3] == 0x6c {
            Option::Some((Option::None, i + 4))
        } else {
            Option::None
        }
    } else {
        match parse_number(s, i) {
            Option::None => Option::None,
            Option::Some((h, j)) => Option::Some((Option::Some(h), j)),
        }
    }
}

/// The members of a windowed-average object, from the first key to the
/// closing brace. `ten` and `one` carry what has been seen so far: a
/// duplicate of a known key fails the decode, an unknown or escaped key is
/// skipped with its value.
pub open spec fn spec_avg_members(
    s: Seq<u8>,
    i: int,
    ten: Option<Option<HashRate>>,
    one: Option<Option<HashRate>>,
) -> Option<(AverageHashrate, int)>
    decreases s.len() - i,
{
    if i < 0 || i >= s.len() || s[i] != B_QUOTE {
        Option::None
    } else {
        match spec_scan_string(s, i + 1, false) {
            Option::None => Option::None,
            Option::Some((esc, a)) => {
                let k = spec_skip_ws(s, a);
                if !(0 <= k < s.len() && s[k] == B_COLON) {
                    Option::None
                } else {
                    let v = next_pos(s.len() as int, i, spec_skip_ws(s, k + 1));
                    let content = s.subrange(i + 1, a - 1);
                    let is_ten = !esc && content == key_ten_seconds();
                    let is_one = !esc && content == key_one_minute();
                    let step: Option<(Option<Option<HashRate>>, Option<Option<HashRate>>, int)> =
                        if is_ten {
                        if ten is Some {
                            Option::None
                        } else {
                            match spec_parse_rate_opt(s, v) {
                                Option::None => Option::None,
                                Option::Some((h, nj)) => Option::Some(
                                    (Option::Some(h), one, nj),
                                ),
                            }
                        }
                    } else if is_one {
                        if one is Some {
                            Option::None
                        } else {
                            match spec_parse_rate_opt(s, v) {
                                Option::None => Option::None,
                                Option::Some((h, nj)) => Option::Some(
                                    (ten, Option::Some(h), nj),
                                ),
                            }
                        }
                    } else {
                        match spec_skip_value(s, v, SKIP_DEPTH as nat) {
                            Option::None => Option::None,
                            Option::Some(nj) => Option::Some((ten, one, nj)),
                        }
                    };
                    match step {
                        Option::None => Option::None,
                        Option::Some((ten2, one2, nj)) => {
                            let c = spec_skip_ws(s, next_pos(s.len() as int, i, nj));
                            if 0 <= c < s.len() && s[c] == B_COMMA {
                                spec_avg_members(
                                    s,
                                    next_pos(s.len() as int, i, spec_skip_ws(s, c + 1)),
                                    ten2,
                                    one2,
                                )
                            } else if 0 <= c < s.len() && s[c] == B_RBRACE {
                                Option::Some(
                                    (
                                        AverageHashrate {
                                            ten_seconds: match ten2 {
                                                Option::None => Option::None,
                                                Option::Some(x) => x,
                                            },
                                            one_minute: match one2 {
                                                Option::None => Option::None,
                                                Option::Some(x) => x,
                                            },
                                        },
                                        c + 1,
                                    ),
                                )
                            } else {
                                Option::None
                            }
                        },
                    }
                }
            },
        }
    }
}

/// A windowed-average object whose opening brace stands at `i`.
pub open spec fn spec_parse_avg(s: Seq<u8>, i: int) -> Option<(AverageHashrate, int)> {
    if !(0 <= i < s.len() && s[i] == B_LBRACE) {
        Option::None
    } else {
        let j = spec_skip_ws(s, i + 1);
        if 0 <= j < s.len() && s[j] == B_RBRACE {
            Option::Some(
                (AverageHashrate { ten_seconds: Option::None, one_minute: Option::None }, j + 1),
            )
        } else {
            spec_avg_members(s, next_pos(s.len() as int, i, j), Option::None, Option::None)
        }
    }
}

fn parse_avg(s: &[u8], i: usize) -> (r: Option<(AverageHashrate, usize)>)
    requires
        i <= s@.len(),
    ensures
        match r {
            Option::Some((avg, j)) => Option::Some((avg, j as int)) == spec_parse_avg(
                s@,
                i as int,
            ) && i < j <= s@.len(),
            Option::None => spec_parse_avg(s@, i as int) is None,
        },
{
    if !(i < s.len() && s[i] == B_LBRACE) {
        return Option::None;
    }
    let n = s.len();
    let j = skip_ws(s, i + 1);
    if j < n && s[j] == B_RBRACE {
        return Option::Some(
            (AverageHashrate { ten_seconds: Option::None, one_minute: Option::None }, j + 1),
        );
    }
    let start = j;
    let mut cur = start;
    let mut ten: Option<Option<HashRate>> = Option::None;
    let mut one: Option<Option<HashRate>> = Option::None;
    proof {
        assert(next_pos(s@.len() as int, i as int, j as int) == j as int);
    }
    loop
        invariant
            i < start <= cur <= s@.len(),
            spec_parse_avg(s@, i as int) == spec_avg_members(
                s@,
                start as int,
                Option::None,
                Option::None,
            ),
            spec_avg_members(s@, start as int, Option::None, Option::None) == spec_avg_members(
                s@,
                cur as int,
                ten,
                one,
            ),
        decreases s@.len() - cur,
    {
        if cur >= s.len() || s[cur] != B_QUOTE {
            return Option::None;
        }
        let (esc, a) = match scan_string(s, cur + 1) {
            Option::Some(p) => p,
            Option::None => {
                return Option::None;
            },
        };
        let k = skip_ws(s, a);
        if !(k < s.len() && s[k] == B_COLON) {
            return Option::None;
        }
        let v = skip_ws(s, k + 1);
        proof {
            assert(next_pos(s@.len() as int, cur as int, v as int) == v as int);
        }
        let is_ten = !esc && range_matches(s, cur + 1, a - 1, "ten_seconds".as_bytes());
        let is_one = !esc && range_matches(s, cur + 1, a - 1, "one_minute".as_bytes());
        let nj: usize;
        if is_ten {
            if ten.is_some() {
                return Option::None;
            }
            match parse_rate_opt(s, v) {
                Option::None => {
                    return Option::None;
                },
                Option::Some((h, j2)) => {
                    ten = Option::Some(h);
                    nj = j2;
                },
            }
        } else if is_one {
            if one.is_some() {
                return Option::None;
            }
            match parse_rate_opt(s, v) {
                Option::None => {
                    return Option::None;
                },
                Option::Some((h, j2)) => {
                    one = Option::Some(h);
                    nj = j2;
                },
            }
        } else {
            match skip_value(s, v, SKIP_DEPTH) {
                Option::None => {
                    return Option::None;
                },
                Option::Some(j2) => {
                    nj = j2;
                },
            }
        }
        let c = skip_ws(s, nj);
        proof {
            assert(next_pos(s@.len() as int, cur as int, nj as int) == nj as int);
        }
        if c < s.len() && s[c] == B_COMMA {
            let nk = skip_ws(s, c + 1);
            proof {
                assert(next_pos(s@.len() as int, cur as int, nk as int) == nk as int);
            }
            cur = nk;
        } else if c < s.len() && s[c] == B_RBRACE {
            return Option::Some(
                (
                    AverageHashrate {
                        ten_seconds: match ten {
                            Option::None => Option::None,
                            Option::Some(x) => x,
                        },
                        one_minute: match one {
                            Option::None => Option::None,
                            Option::Some(x) => x,
                        },
                    },
                    c + 1,
                ),
            );
        } else {
            return Option::None;
        }
    }
}

/// A device key: the decimal digits of a 32-bit device index. Escaped or
/// non-numeric keys fail the decode; leading zeros are accepted.
pub open spec fn spec_u32_key(s: Seq<u8>, lo: int, hi: int) -> Option<u32> {
    if lo >= hi || !(forall|k: int| lo <= k < hi ==> is_digit(s[k])) {
        Option::None
    } else {
        let v = spec_fold_mantissa(s, lo, hi, 0);
        if v > u32::MAX {
            Option::None
        } else {
            Option::Some(v as u32)
        }
    }
}

fn u32_key(s: &[u8], lo: usize, hi: usize) -> (r: Option<u32>)
    requires
        lo <= hi <= s@.len(),
    ensures
        r == spec_u32_key(s@, lo as int, hi as int),
{
    if lo >= hi {
        return Option::None;
    }
    let mut k = lo;
    while k < hi
        invariant
            lo <= k <= hi <= s@.len(),
            forall|m: int| lo <= m < k ==> is_digit(s@[m]),
        decreases hi - k,
    {
        if !(0x30 <= s[k] && s[k] <= 0x39) {
            return Option::None;
        }
        k += 1;
    }
    let v = fold_mantissa(s, lo, hi, 0);
    if v > u32::MAX as u64 {
        Option::None
    } else {
        Option::Some(v as u32)
    }
}

/// The members of the per-device map, collected as (index, averages) entries
/// in document order.
pub open spec fn spec_device_members(
    s: Seq<u8>,
    i: int,
    acc: Seq<(u32, AverageHashrate)>,
) -> Option<(Seq<(u32, AverageHashrate)>, int)>
    decreases s.len() - i,
{
    if i < 0 || i >= s.len() || s[i] != B_QUOTE {
        Option::None
    } else {
        match spec_scan_string(s, i + 1, false) {
            Option::None => Option::None,
            Option::Some((esc, a)) => {
                if esc {
                    Option::None
                } else {
                    match spec_u32_key(s, i + 1, a - 1) {
                        Option::None => Option::None,
                        Option::Some(index) => {
                            let k = spec_skip_ws(s, a);
                            if !(0 <= k < s.len() && s[k] == B_COLON) {
                                Option::None
                            } else {
                                let v = next_pos(s.len() as int, i, spec_skip_ws(s, k + 1));
                                match spec_parse_avg(s, v) {
                                    Option::None => Option::None,
                                    Option::Some((avg, nj)) => {
                                        let acc2 = acc.push((index, avg));
                                        let c = spec_skip_ws(
                                            s,
                                            next_pos(s.len() as int, i, nj),
                                        );
                                        if 0 <= c < s.len() && s[c] == B_COMMA {
                                            spec_device_members(
                                                s,
                                                next_pos(
                                                    s.len() as int,
                                                    i,
                                                    spec_skip_ws(s, c + 1),
                                                ),
                                                acc2,
                                            )
                                        } else if 0 <= c < s.len() && s[c] == B_RBRACE {
                                            Option::Some((acc2, c + 1))
                                        } else {
                                            Option::None
                                        }
                                    },
                                }
                            }
                        },
                    }
                }
            },
        }
    }
}

/// The per-device map whose opening brace stands at `i`.
pub open spec fn spec_parse_device_map(s: Seq<u8>, i: int) -> Option<
    (Seq<(u32, AverageHashrate)>, int),
> {
    if !(0 <= i < s.len() && s[i] == B_LBRACE) {
        Option::None
    } else {
        let j = spec_skip_ws(s, i + 1);
        if 0 <= j < s.len() && s[j] == B_RBRACE {
            Option::Some((Seq::empty(), j + 1))
        } else {
            spec_device_members(s, next_pos(s.len() as int, i, j), Seq::empty())
        }
    }
}

fn parse_device_map(s: &[u8], i: usize) -> (r: Option<(Vec<(u32, AverageHashrate)>, usize)>)
    requires
        i <= s@.len(),
    ensures
        match r {
            Option::Some((dv, j)) => spec_parse_device_map(s@, i as int) matches Option::Some(p)
                && p.0 == dv@ && p.1 == j as int && i < j <= s@.len(),
            Option::None => spec_parse_device_map(s@, i as int) is None,
        },
{
    if !(i < s.len() && s[i] == B_LBRACE) {
        return Option::None;
    }
    let n = s.len();
    let j = skip_ws(s, i + 1);
    if j < n && s[j] == B_RBRACE {
        let empty: Vec<(u32, AverageHashrate)> = Vec::new();
        proof {
            assert(empty@ =~= Seq::<(u32, AverageHashrate)>::empty());
        }
        return Option::Some((empty, j + 1));
    }
    let start = j;
    let mut cur = start;
    let mut acc: Vec<(u32, AverageHashrate)> = Vec::new();
    proof {
        assert(next_pos(s@.len() as int, i as int, j as int) == j as int);
        assert(acc@ =~= Seq::<(u32, AverageHashrate)>::empty());
    }
    loop
        invariant
            i < start <= cur <= s@.len(),
            spec_parse_device_map(s@, i as int) == spec_device_members(
                s@,
                start as int,
                Seq::empty(),
            ),
            spec_device_members(s@, start as int, Seq::empty()) == spec_device_members(
                s@,
                cur as int,
                acc@,
            ),
        decreases s@.len() - cur,
    {
        if cur >= s.len() || s[cur] != B_QUOTE {
            return Option::None;
        }
        let (esc, a) = match scan_string(s, cur + 1) {
            Option::Some(p) => p,
            Option::None => {
                return Option::None;
            },
        };
        if esc {
            return Option::None;
        }
        let index = match u32_key(s, cur + 1, a - 1) {
            Option::Some(x) => x,
            Option::None => {
                return Option::None;
            },
        };
        let k = skip_ws(s, a);
        if !(k < s.len() && s[k] == B_COLON) {
            return Option::None;
        }
        let v = skip_ws(s, k + 1);
        proof {
            assert(next_pos(s@.len() as int, cur as int, v as int) == v as int);
        }
        let (avg, nj) = match parse_avg(s, v) {
            Option::Some(p) => p,
            Option::None => {
                return Option::None;
            },
        };
        acc.push((index, avg));
        let c = skip_ws(s, nj);
        proof {
            assert(next_pos(s@.len() as int, cur as int, nj as int) == nj as int);
        }
        if c < s.len() && s[c] == B_COMMA {
            let nk = skip_ws(s, c + 1);
            proof {
                assert(next_pos(s@.len() as int, cur as int, nk as int) == nk as int);
            }
            cur = nk;
        } else if c < s.len() && s[c] == B_RBRACE {
            return Option::Some((acc, c + 1));
        } else {
            return Option::None;
        }
    }
}

/// The decoded telemetry document, at the specification level.
pub struct SpecTelemetry {
    pub devices: Seq<(u32, AverageHashrate)>,
    pub total: AverageHashrate,
}

/// The members of the top-level telemetry object. The aggregate sample is
/// required; the per-device map may be absent and defaults to empty; unknown
/// or escaped keys are skipped with their values; duplicates of recognized
/// keys fail the decode.
pub open spec fn spec_top_members(
    s: Seq<u8>,
    i: int,
    devices: Option<Seq<(u32, AverageHashrate)>>,
    total: Option<AverageHashrate>,
) -> Option<(SpecTelemetry, int)>
    decreases s.len() - i,
{
    if i < 0 || i >= s.len() || s[i] != B_QUOTE {
        Option::None
    } else {
        match spec_scan_string(s, i + 1, false) {
            Option::None => Option::None,
            Option::Some((esc, a)) => {
                let k = spec_skip_ws(s, a);
                if !(0 <= k < s.len() && s[k] == B_COLON) {
                    Option::None
                } else {
                    let v = next_pos(s.len() as int, i, spec_skip_ws(s, k + 1));
                    let content = s.subrange(i + 1, a - 1);
                    let is_devices = !esc && content == key_hashrate_per_device();
                    let is_total = !esc && content == key_total_hashrate();
                    let step: Option<
                        (Option<Seq<(u32, AverageHashrate)>>, Option<AverageHashrate>, int),
                    > = if is_devices {
                        if devices is Some {
                            Option::None
                        } else {
                            match spec_parse_device_map(s, v) {
                                Option::None => Option::None,
                                Option::Some((dv, nj)) => Option::Some(
                                    (Option::Some(dv), total, nj),
                                ),
                            }
                        }
                    } else if is_total {
                        if total is Some {
                            Option::None
                        } else {
                            match spec_parse_avg(s, v) {
                                Option::None => Option::None,
                                Option::Some((avg, nj)) => Option::Some(
                                    (devices, Option::Some(avg), nj),
                                ),
                            }
                        }
                    } else {
                        match spec_skip_value(s, v, SKIP_DEPTH as nat) {
                            Option::None => Option::None,
                            Option::Some(nj) => Option::Some((devices, total, nj)),
                        }
                    };
                    match step {
                        Option::None => Option::None,
                        Option::Some((devices2, total2, nj)) => {
                            let c = spec_skip_ws(s, next_pos(s.len() as int, i, nj));
                            if 0 <= c < s.len() && s[c] == B_COMMA {
                                spec_top_members(
                                    s,
                                    next_pos(s.len() as int, i, spec_skip_ws(s, c + 1)),
                                    devices2,
                                    total2,
                                )
                            } else if 0 <= c < s.len() && s[c] == B_RBRACE {
                                match total2 {
                                    Option::Some(tt) => Option::Some(
                                        (
                                            SpecTelemetry {
                                                devices: match devices2 {
                                                    Option::Some(dv) => dv,
                                                    Option::None => Seq::empty(),
                                                },
                                                total: tt,
                                            },
                                            c + 1,
                                        ),
                                    ),
                                    Option::None => Option::None,
                                }
                            } else {
                                Option::None
                            }
                        },
                    }
                }
            },
        }
    }
}

/// The whole telemetry body: one top-level object holding at least the
/// aggregate sample, surrounded by nothing but whitespace.
pub open spec fn spec_parse_telemetry(s: Seq<u8>) -> Option<SpecTelemetry> {
    let i = spec_skip_ws(s, 0);
    if !(0 <= i < s.len() && s[i] == B_LBRACE) {
        Option::None
    } else {
        let j = spec_skip_ws(s, i + 1);
        if 0 <= j < s.len() && s[j] == B_RBRACE {
            Option::None
        } else {
            match spec_top_members(
                s,
                next_pos(s.len() as int, i, j),
                Option::None,
                Option::None,
            ) {
                Option::None => Option::None,
                Option::Some((t, e)) => {
                    if spec_skip_ws(s, next_pos(s.len() as int, i, e)) == s.len() {
                        Option::Some(t)
                    } else {
                        Option::None
                    }
                },
            }
        }
    }
}

/// The telemetry document as decoded from the worker's status endpoint.
#[derive(Debug)]
pub struct XtrGpuminerHttpApiStatus {
    /// Windowed samples keyed by device index, in document order.
    pub hashrate_per_device: Vec<(u32, AverageHashrate)>,
    /// The aggregate windowed sample.
    pub total_hashrate: AverageHashrate,
}

/// Whether an exec-level decode result matches the spec-level one.
pub open spec fn telemetry_matches(
    r: Option<XtrGpuminerHttpApiStatus>,
    st: Option<SpecTelemetry>,
) -> bool {
    match r {
        Option::Some(t) => st matches Option::Some(sp) && t.hashrate_per_device@ == sp.devices
            && t.total_hashrate == sp.total,
        Option::None => st is None,
    }
}

/// Decodes a telemetry body. Returns None exactly when the bytes do not form
/// a telemetry document as `spec_parse_telemetry` defines it.
pub fn parse_telemetry(s: &[u8]) -> (r: Option<XtrGpuminerHttpApiStatus>)
    ensures
        telemetry_matches(r, spec_parse_telemetry(s@)),
{
    let n = s.len();
    let i = skip_ws(s, 0);
    if !(i < n && s[i] == B_LBRACE) {
        return Option::None;
    }
    let j = skip_ws(s, i + 1);
    if j < n && s[j] == B_RBRACE {
        return Option::None;
    }
    let start = j;
    let mut cur = start;
    let mut devices: Option<Vec<(u32, AverageHashrate)>> = Option::None;
    let mut total: Option<AverageHashrate> = Option::None;
    proof {
        assert(next_pos(s@.len() as int, i as int, j as int) == j as int);
    }
    loop
        invariant
            i < start <= cur <= s@.len(),
            i < s@.len(),
            spec_parse_telemetry(s@) == (match spec_top_members(
                s@,
                start as int,
                Option::None,
                Option::None,
            ) {
                Option::None => Option::None,
                Option::Some((t, e)) => {
                    if spec_skip_ws(s@, next_pos(s@.len() as int, i as int, e)) == s@.len() {
                        Option::Some(t)
                    } else {
                        Option::<SpecTelemetry>::None
                    }
                },
            }),
            spec_top_members(s@, start as int, Option::None, Option::None) == spec_top_members(
                s@,
                cur as int,
                match devices {
                    Option::Some(dv) => Option::Some(dv@),
                    Option::None => Option::None,
                },
                total,
            ),
        decreases s@.len() - cur,
    {
        if cur >= s.len() || s[cur] != B_QUOTE {
            return Option::None;
        }
        let (esc, a) = match scan_string(s, cur + 1) {
            Option::Some(p) => p,
            Option::None => {
                return Option::None;
            },
        };
        let k = skip_ws(s, a);
        if !(k < s.len() && s[k] == B_COLON) {
            return Option::None;
        }
        let v = skip_ws(s, k + 1);
        proof {
            assert(next_pos(s@.len() as int, cur as int, v as int) == v as int);
        }
        let is_devices = !esc && range_matches(s, cur + 1, a - 1, "hashrate_per_device".as_bytes());
        let is_total = !esc && range_matches(s, cur + 1, a - 1, "total_hashrate".as_bytes());
        let nj: usize;
        if is_devices {
            if devices.is_some() {
                return Option::None;
            }
            match parse_device_map(s, v) {
                Option::None => {
                    return Option::None;
                },
                Option::Some((dv, j2)) => {
                    devices = Option::Some(dv);
                    nj = j2;
                },
            }
        } else if is_total {
            if total.is_some() {
                return Option::None;
            }
            match parse_avg(s, v) {
                Option::None => {
                    return Option::None;
                },
                Option::Some((avg, j2)) => {
                    total = Option::Some(avg);
                    nj = j2;
                },
            }
        } else {
            match skip_value(s, v, SKIP_DEPTH) {
                Option::None => {
                    return Option::None;
                },
                Option::Some(j2) => {
                    nj = j2;
                },
            }
        }
        let c = skip_ws(s, nj);
        proof {
            assert(next_pos(s@.len() as int, cur as int, nj as int) == nj as int);
        }
        if c < s.len() && s[c] == B_COMMA {
            let nk = skip_ws(s, c + 1);
            proof {
                assert(next_pos(s@.len() as int, cur as int, nk as int) == nk as int);
            }
            cur = nk;
        } else if c < s.len() && s[c] == B_RBRACE {
            let tt = match total {
                Option::Some(tt) => tt,
                Option::None => {
                    return Option::None;
                },
            };
            let dv = match devices {
                Option::Some(dv) => dv,
                Option::None => Vec::new(),
            };
            proof {
                assert(devices is None ==> dv@ =~= Seq::<(u32, AverageHashrate)>::empty());
            }
            let f = skip_ws(s, c + 1);
            proof {
                assert(next_pos(s@.len() as int, i as int, (c + 1) as int) == (c + 1) as int);
            }
            if f == s.len() {
                return Option::Some(
                    XtrGpuminerHttpApiStatus { hashrate_per_device: dv, total_hashrate: tt },
                );
            } else {
                return Option::None;
            }
        } else {
            return Option::None;
        }
    }
}

} // verus!
