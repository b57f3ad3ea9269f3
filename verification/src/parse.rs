//! Parsing of raw partition-value strings into scalars: integers, decimals,
//! booleans, dates and timestamps.
use vstd::prelude::*;

verus! {

use crate::error::Error;
use crate::scalars::{dec_precision, DecimalData, Scalar, ScalarV};
use crate::schema::{DataType, DataTypeV, DecimalType, PrimitiveType};
use crate::strings::is_digit_char;
use vstd::utf8::encode_utf8;

/// The numeric value of a digit character, over the integers.
pub open spec fn digit_val(c: char) -> int {
    c as int - 48
}

/// The value of a digit string, most significant first.
pub open spec fn digits_val(s: Seq<char>) -> int
    decreases s.len(),
{
    if s.len() == 0 {
        0
    } else {
        digits_val(s.drop_last()) * 10 + digit_val(s.last())
    }
}

/// Whether a string is one or more decimal digits.
pub open spec fn is_digit_seq(s: Seq<char>) -> bool {
    s.len() > 0 && forall|i: int| 0 <= i < s.len() ==> is_digit_char(#[trigger] s[i])
}

/// The integer a string of an optional sign and digits denotes, if any.
pub open spec fn parse_int_spec(s: Seq<char>) -> Option<int> {
    if s.len() == 0 {
        None
    } else if s[0] == '-' {
        if is_digit_seq(s.drop_first()) {
            Some(-digits_val(s.drop_first()))
        } else {
            None
        }
    } else if s[0] == '+' {
        if is_digit_seq(s.drop_first()) {
            Some(digits_val(s.drop_first()))
        } else {
            None
        }
    } else {
        if is_digit_seq(s) {
            Some(digits_val(s))
        } else {
            None
        }
    }
}

/// The 128-bit integer a string denotes: the denoted value when it is in
/// range, and nothing otherwise.
pub open spec fn parse_i128_spec(s: Seq<char>) -> Option<i128> {
    match parse_int_spec(s) {
        Some(v) => if i128::MIN <= v <= i128::MAX {
            Some(v as i128)
        } else {
            None
        },
        None => None,
    }
}

/// A digit string prefix never exceeds the whole.
proof fn lemma_digits_val_prefix(s: Seq<char>, j: int)
    requires
        0 <= j <= s.len(),
        forall|i: int| 0 <= i < s.len() ==> is_digit_char(#[trigger] s[i]),
    ensures
        0 <= digits_val(s.take(j)) <= digits_val(s),
        digits_val(s) >= 0,
    decreases s.len(),
{
    if s.len() == 0 {
        assert(s.take(j) =~= s);
    } else {
        assert(forall|i: int|
            0 <= i < s.drop_last().len() ==> is_digit_char(#[trigger] s.drop_last()[i]));
        lemma_digits_val_prefix(s.drop_last(), if j <= s.len() - 1 {
            j
        } else {
            s.len() - 1
        });
        if j <= s.len() - 1 {
            assert(s.take(j) =~= s.drop_last().take(j));
        } else {
            assert(s.take(j) =~= s);
        }
    }
}

/// Parses one or more digits from an ascii string into an unsigned value.
fn parse_digits_u128(s: &str) -> (r: Option<u128>)
    requires
        s.is_ascii(),
    ensures
        r matches Some(v) ==> is_digit_seq(s@) && v == digits_val(s@) && 0 <= v,
        r is None ==> !is_digit_seq(s@) || digits_val(s@) > u128::MAX,
{
    let n = s.unicode_len();
    if n == 0 {
        return None;
    }
    let mut val: u128 = 0;
    let mut i: usize = 0;
    while i < n
        invariant
            n == s@.len(),
            s.is_ascii(),
            i <= n,
            forall|j: int| 0 <= j < i ==> is_digit_char(#[trigger] s@[j]),
            val == digits_val(s@.take(i as int)),
            0 <= val,
        decreases n - i,
    {
        let b = s.get_ascii(i);
        if !(48 <= b && b <= 57) {
            proof {
                assert(s@[i as int] as u8 == b);
                vstd::utf8::is_ascii_chars_nat_bound(s@);
                assert(s@[i as int] as nat <= 127);
                assert(!is_digit_char(s@[i as int]));
            }
            return None;
        }
        proof {
            assert(s@[i as int] as u8 == b);
            vstd::utf8::is_ascii_chars_nat_bound(s@);
            assert(48 <= s@[i as int] as int <= 57);
            assert(is_digit_char(s@[i as int]));
            assert(s@.take(i + 1).drop_last() =~= s@.take(i as int));
            assert(s@.take(i + 1).last() == s@[i as int]);
        }
        let d: u128 = (b - 48) as u128;
        val = match val.checked_mul(10) {
            Some(x) => match x.checked_add(d) {
                Some(y) => y,
                None => {
                    proof {
                        lemma_digits_all(s@, i as int);
                    }
                    return None;
                },
            },
            None => {
                proof {
                    lemma_digits_all(s@, i as int);
                }
                return None;
            },
        };
        i = i + 1;
    }
    proof {
        assert(s@.take(n as int) =~= s@);
    }
    Some(val)
}

/// When the value up to a digit overflows, the whole string's value
/// overflows; usable only once the scanned prefix is all digits.
proof fn lemma_digits_all(s: Seq<char>, i: int)
    requires
        0 <= i < s.len(),
        forall|j: int| 0 <= j <= i ==> is_digit_char(#[trigger] s[j]),
        digits_val(s.take(i)) * 10 + digit_val(s[i]) > u128::MAX,
        digits_val(s.take(i)) >= 0,
    ensures
        !is_digit_seq(s) || digits_val(s) > u128::MAX,
{
    if is_digit_seq(s) {
        assert(s.take(i + 1).drop_last() =~= s.take(i));
        assert(s.take(i + 1).last() == s[i]);
        assert(digits_val(s.take(i + 1)) == digits_val(s.take(i)) * 10 + digit_val(s[i]));
        lemma_digits_val_prefix(s, i + 1);
    }
}

/// Parses an optionally signed integer from a string into a 128-bit value,
/// as the decimal parser needs it.
pub fn parse_i128(s: &str) -> (r: Option<i128>)
    ensures
        r == parse_i128_spec(s@),
{
    if !s.is_ascii() {
        proof {
            lemma_non_ascii_not_int(s@);
        }
        return None;
    }
    let n = s.unicode_len();
    if n == 0 {
        return None;
    }
    let b0 = s.get_ascii(0);
    proof {
        assert(s@[0] as u8 == b0);
        vstd::utf8::is_ascii_chars_nat_bound(s@);
    }
    if b0 == 45 {
        let rest = s.substring_ascii(1, n);
        proof {
            assert(rest@ =~= s@.drop_first());
        }
        match parse_digits_u128(rest) {
            Some(v) => {
                if v <= i128::MAX as u128 {
                    Some(-(v as i128))
                } else if v == 170141183460469231731687303715884105728u128 {
                    Some(i128::MIN)
                } else {
                    None
                }
            },
            None => None,
        }
    } else if b0 == 43 {
        let rest = s.substring_ascii(1, n);
        proof {
            assert(rest@ =~= s@.drop_first());
        }
        match parse_digits_u128(rest) {
            Some(v) => {
                if v <= i128::MAX as u128 {
                    Some(v as i128)
                } else {
                    None
                }
            },
            None => None,
        }
    } else {
        match parse_digits_u128(s) {
            Some(v) => {
                if v <= i128::MAX as u128 {
                    Some(v as i128)
                } else {
                    None
                }
            },
            None => None,
        }
    }
}

/// A sequence beyond ascii has a witness character beyond ascii.
proof fn lemma_non_ascii_witness(s: Seq<char>) -> (w: int)
    requires
        !vstd::utf8::is_ascii_chars(s),
    ensures
        0 <= w < s.len(),
        !('\0' <= s[w] <= '\u{7f}'),
{
    assert(exists|i: int| 0 <= i < s.len() && !('\0' <= #[trigger] s[i] <= '\u{7f}')) by {
        if forall|i: int| 0 <= i < s.len() ==> ('\0' <= #[trigger] s[i] <= '\u{7f}') {
            assert(vstd::utf8::is_ascii_chars(s));
        }
    }
    choose|i: int| 0 <= i < s.len() && !('\0' <= #[trigger] s[i] <= '\u{7f}')
}

/// No string with a character beyond ascii denotes an integer.
proof fn lemma_non_ascii_not_int(s: Seq<char>)
    requires
        !vstd::utf8::is_ascii_chars(s),
    ensures
        parse_int_spec(s) is None,
{
    let w = lemma_non_ascii_witness(s);
    lemma_nondigit_not_int(s, w);
}

/// The index of the first exponent marker, if any.
pub open spec fn find_first_e(s: Seq<char>) -> Option<int>
    decreases s.len(),
{
    if s.len() == 0 {
        None
    } else if s[0] == 'e' || s[0] == 'E' {
        Some(0)
    } else {
        match find_first_e(s.drop_first()) {
            Some(k) => Some(k + 1),
            None => None,
        }
    }
}

/// The index of the first dot, if any.
pub open spec fn find_first_dot(s: Seq<char>) -> Option<int>
    decreases s.len(),
{
    if s.len() == 0 {
        None
    } else if s[0] == '.' {
        Some(0)
    } else {
        match find_first_dot(s.drop_first()) {
            Some(k) => Some(k + 1),
            None => None,
        }
    }
}

/// A first-occurrence scan matches `find_first_e`.
proof fn lemma_find_e_at(s: Seq<char>, k: int)
    requires
        0 <= k <= s.len(),
        forall|j: int| 0 <= j < k ==> #[trigger] s[j] != 'e' && s[j] != 'E',
        k < s.len() ==> (s[k] == 'e' || s[k] == 'E'),
    ensures
        k < s.len() ==> find_first_e(s) == Some(k),
        k == s.len() ==> find_first_e(s) is None,
    decreases k,
{
    if k == 0 {
    } else {
        assert(s[0] != 'e' && s[0] != 'E');
        assert(forall|j: int|
            0 <= j < k - 1 ==> #[trigger] s.drop_first()[j] != 'e' && s.drop_first()[j] != 'E');
        lemma_find_e_at(s.drop_first(), k - 1);
    }
}

/// A first-occurrence scan matches `find_first_dot`.
proof fn lemma_find_dot_at(s: Seq<char>, k: int)
    requires
        0 <= k <= s.len(),
        forall|j: int| 0 <= j < k ==> #[trigger] s[j] != '.',
        k < s.len() ==> s[k] == '.',
    ensures
        k < s.len() ==> find_first_dot(s) == Some(k),
        k == s.len() ==> find_first_dot(s) is None,
    decreases k,
{
    if k == 0 {
    } else {
        assert(s[0] != '.');
        assert(forall|j: int| 0 <= j < k - 1 ==> #[trigger] s.drop_first()[j] != '.');
        lemma_find_dot_at(s.drop_first(), k - 1);
    }
}

/// Finds the first exponent marker of an ascii string.
fn scan_for_e(s: &str) -> (r: Option<usize>)
    requires
        s.is_ascii(),
    ensures
        match r {
            Some(k) => find_first_e(s@) == Some(k as int),
            None => find_first_e(s@) is None,
        },
{
    let n = s.unicode_len();
    let mut i: usize = 0;
    while i < n
        invariant
            n == s@.len(),
            s.is_ascii(),
            i <= n,
            forall|j: int| 0 <= j < i ==> #[trigger] s@[j] != 'e' && s@[j] != 'E',
        decreases n - i,
    {
        let b = s.get_ascii(i);
        proof {
            assert(s@[i as int] as u8 == b);
            vstd::utf8::is_ascii_chars_nat_bound(s@);
        }
        if b == 101 || b == 69 {
            proof {
                lemma_find_e_at(s@, i as int);
            }
            return Some(i);
        }
        i = i + 1;
    }
    proof {
        lemma_find_e_at(s@, n as int);
    }
    None
}

/// Finds the first dot of an ascii string.
fn scan_for_dot(s: &str) -> (r: Option<usize>)
    requires
        s.is_ascii(),
    ensures
        match r {
            Some(k) => find_first_dot(s@) == Some(k as int),
            None => find_first_dot(s@) is None,
        },
{
    let n = s.unicode_len();
    let mut i: usize = 0;
    while i < n
        invariant
            n == s@.len(),
            s.is_ascii(),
            i <= n,
            forall|j: int| 0 <= j < i ==> #[trigger] s@[j] != '.',
        decreases n - i,
    {
        let b = s.get_ascii(i);
        proof {
            assert(s@[i as int] as u8 == b);
            vstd::utf8::is_ascii_chars_nat_bound(s@);
        }
        if b == 46 {
            proof {
                lemma_find_dot_at(s@, i as int);
            }
            return Some(i);
        }
        i = i + 1;
    }
    proof {
        lemma_find_dot_at(s@, n as int);
    }
    None
}

/// The unscaled integer a raw decimal string denotes under a decimal type:
/// an optional sign and integer part, an optional dot and fraction, and an
/// optional exponent; the digits joined must denote an in-range integer
/// within the declared precision, and the fraction length minus the
/// exponent must equal the declared scale.
pub open spec fn parse_decimal_spec(s: Seq<char>, dtype: DecimalType) -> Option<i128> {
    let base = (match find_first_e(s) {
        Some(k) => s.take(k),
        None => s,
    });
    let exp = (match find_first_e(s) {
        Some(k) => parse_i128_spec(s.skip(k + 1)),
        None => Some(0),
    });
    match exp {
        None => None,
        Some(e) => {
            if base.len() == 0 {
                None
            } else {
                let int_part = (match find_first_dot(base) {
                    None => base,
                    Some(p) => base.take(p),
                });
                let frac_part = (match find_first_dot(base) {
                    None => Seq::<char>::empty(),
                    Some(p) => if p == base.len() - 1 {
                        Seq::<char>::empty()
                    } else {
                        base.skip(p + 1)
                    },
                });
                if frac_part.len() - e != dtype.scale as int {
                    None
                } else {
                    match parse_i128_spec(int_part + frac_part) {
                        Some(v) => if dec_precision(v as int) <= dtype.precision {
                            Some(v)
                        } else {
                            None
                        },
                        None => None,
                    }
                }
            }
        },
    }
}

/// A string holding a character that is no digit and no sign denotes no
/// integer.
proof fn lemma_nondigit_not_int(s: Seq<char>, w: int)
    requires
        0 <= w < s.len(),
        !is_digit_char(s[w]),
        s[w] != '-',
        s[w] != '+',
    ensures
        parse_int_spec(s) is None,
{
    if s[0] == '-' || s[0] == '+' {
        if is_digit_seq(s.drop_first()) {
            assert(is_digit_char(s.drop_first()[w - 1]));
        }
    } else {
        if is_digit_seq(s) {
            assert(is_digit_char(s[w]));
        }
    }
}

/// The character at a found exponent index is a marker.
proof fn lemma_find_first_e_marker(s: Seq<char>, k: int)
    requires
        find_first_e(s) == Some(k),
    ensures
        0 <= k < s.len(),
        s[k] == 'e' || s[k] == 'E',
    decreases s.len(),
{
    if s.len() > 0 && !(s[0] == 'e' || s[0] == 'E') {
        lemma_find_first_e_marker(s.drop_first(), k - 1);
    }
}

/// The character at a found dot index is a dot.
proof fn lemma_find_first_dot_marker(s: Seq<char>, k: int)
    requires
        find_first_dot(s) == Some(k),
    ensures
        0 <= k < s.len(),
        s[k] == '.',
    decreases s.len(),
{
    if s.len() > 0 && s[0] != '.' {
        lemma_find_first_dot_marker(s.drop_first(), k - 1);
    }
}

/// A base whose character at `w` is beyond ascii joins into digits that
/// denote no integer.
proof fn lemma_base_nondigit(base: Seq<char>, w: int)
    requires
        0 <= w < base.len(),
        !('\0' <= base[w] <= '\u{7f}'),
    ensures
        (match find_first_dot(base) {
            None => parse_int_spec(base + Seq::<char>::empty()),
            Some(p) => if p == base.len() - 1 {
                parse_int_spec(base.take(p) + Seq::<char>::empty())
            } else {
                parse_int_spec(base.take(p) + base.skip(p + 1))
            },
        }) is None,
{
    let c = base[w];
    assert(!is_digit_char(c) && c != '-' && c != '+' && c != '.');
    match find_first_dot(base) {
        None => {
            assert(base + Seq::<char>::empty() =~= base);
            lemma_nondigit_not_int(base + Seq::<char>::empty(), w);
        },
        Some(p) => {
            lemma_find_first_dot_marker(base, p);
            assert(w != p);
            if p == base.len() - 1 {
                assert(base.take(p) + Seq::<char>::empty() =~= base.take(p));
                assert(base.take(p)[w] == c);
                lemma_nondigit_not_int(base.take(p) + Seq::<char>::empty(), w);
            } else {
                let joined = base.take(p) + base.skip(p + 1);
                if w < p {
                    assert(joined[w] == c);
                    lemma_nondigit_not_int(joined, w);
                } else {
                    assert(joined[w - 1] == base.skip(p + 1)[w - p - 1]);
                    assert(joined[w - 1] == c);
                    lemma_nondigit_not_int(joined, w - 1);
                }
            }
        },
    }
}

/// No string with a character beyond ascii denotes a decimal.
proof fn lemma_non_ascii_not_decimal(s: Seq<char>, dtype: DecimalType)
    requires
        !vstd::utf8::is_ascii_chars(s),
    ensures
        parse_decimal_spec(s, dtype) is None,
{
    let w = lemma_non_ascii_witness(s);
    match find_first_e(s) {
        Some(k) => {
            lemma_find_first_e_marker(s, k);
            if w > k {
                assert(s.skip(k + 1)[w - k - 1] == s[w]);
                lemma_nondigit_not_int(s.skip(k + 1), w - k - 1);
            } else if w < k {
                assert(s.take(k)[w] == s[w]);
                lemma_base_nondigit(s.take(k), w);
            } else {
                assert(false);
            }
        },
        None => {
            lemma_base_nondigit(s, w);
        },
    }
}

/// Parses a raw string as a decimal of the given type.
pub fn parse_decimal(raw: &str, dtype: DecimalType) -> (r: Result<Scalar, Error>)
    ensures
        r is Ok <==> parse_decimal_spec(raw@, dtype) is Some,
        r matches Ok(s) ==> s@ == ScalarV::Decimal(parse_decimal_spec(raw@, dtype)->0, dtype),
        r matches Err(e) ==> e is ParseError || e is InvalidDecimal,
{
    proof {
        reveal_strlit("");
    }
    if !raw.is_ascii() {
        proof {
            lemma_non_ascii_not_decimal(raw@, dtype);
        }
        return Err(Error::ParseError(String::from_str(raw), DataType::decimal(dtype)));
    }
    let n = raw.unicode_len();
    let (base, exp): (&str, i128) = match scan_for_e(raw) {
        None => (raw, 0),
        Some(pos) => {
            proof {
                lemma_find_first_e_marker(raw@, pos as int);
            }
            let b = raw.substring_ascii(0, pos);
            let e_str = raw.substring_ascii(pos + 1, n);
            proof {
                assert(b@ =~= raw@.take(pos as int));
                assert(e_str@ =~= raw@.skip(pos + 1));
            }
            match parse_i128(e_str) {
                Some(e) => (b, e),
                None => {
                    return Err(
                        Error::ParseError(String::from_str(raw), DataType::decimal(dtype)),
                    );
                },
            }
        },
    };
    let bn = base.unicode_len();
    if bn == 0 {
        return Err(Error::ParseError(String::from_str(raw), DataType::decimal(dtype)));
    }
    let (int_part, frac_part): (&str, &str) = match scan_for_dot(base) {
        None => (base, ""),
        Some(pos) => {
            proof {
                lemma_find_first_dot_marker(base@, pos as int);
            }
            if pos == bn - 1 {
                let ip = base.substring_ascii(0, pos);
                proof {
                    assert(ip@ =~= base@.take(pos as int));
                    assert(""@ =~= Seq::<char>::empty());
                }
                (ip, "")
            } else {
                let ip = base.substring_ascii(0, pos);
                let fp = base.substring_ascii(pos + 1, bn);
                proof {
                    assert(ip@ =~= base@.take(pos as int));
                    assert(fp@ =~= base@.skip(pos + 1));
                }
                (ip, fp)
            }
        },
    };
    let frac_digits: i128 = frac_part.unicode_len() as i128;
    let scale: i128 = match frac_digits.checked_sub(exp) {
        Some(v) => v,
        None => {
            proof {
                assert(frac_part@.len() - exp != dtype.scale as int);
            }
            return Err(Error::ParseError(String::from_str(raw), DataType::decimal(dtype)));
        },
    };
    if !(0 <= scale && scale <= 255 && scale as u8 == dtype.scale()) {
        return Err(Error::ParseError(String::from_str(raw), DataType::decimal(dtype)));
    }
    let mut joined = String::from_str(int_part);
    joined.append(frac_part);
    proof {
        assert(joined@ == int_part@ + frac_part@);
    }
    let v = match parse_i128(joined.as_str()) {
        Some(v) => v,
        None => {
            return Err(Error::ParseError(String::from_str(raw), DataType::decimal(dtype)));
        },
    };
    match DecimalData::try_new(v, dtype) {
        Ok(d) => Ok(Scalar::Decimal(d)),
        Err(_) => Err(Error::invalid_decimal("decimal value exceeds declared precision")),
    }
}


/// Case-insensitive equality of two characters, folding only the ascii
/// letters.
pub open spec fn char_eqi(x: char, y: char) -> bool {
    ||| x == y
    ||| (65 <= x as int <= 90 && y as int == x as int + 32)
    ||| (65 <= y as int <= 90 && x as int == y as int + 32)
}

/// Case-insensitive equality of two strings over ascii letters.
pub open spec fn eq_ignore_ascii_case(a: Seq<char>, b: Seq<char>) -> bool {
    a.len() == b.len() && forall|i: int| 0 <= i < a.len() ==> char_eqi(#[trigger] a[i], b[i])
}

/// Compares two strings, treating ascii letters case-insensitively.
pub fn str_eq_ignore_case(a: &str, b: &str) -> (r: bool)
    ensures
        r == eq_ignore_ascii_case(a@, b@),
{
    let an = a.unicode_len();
    let bn = b.unicode_len();
    if an != bn {
        return false;
    }
    for i in 0..an
        invariant
            an == a@.len(),
            an == b@.len(),
            forall|j: int| 0 <= j < i ==> char_eqi(#[trigger] a@[j], b@[j]),
    {
        let x = a.get_char(i) as u32;
        let y = b.get_char(i) as u32;
        let same = x == y || (65 <= x && x <= 90 && y == x + 32) || (65 <= y && y <= 90 && x == y
            + 32);
        if !same {
            return false;
        }
    }
    true
}

/// The microseconds since the epoch a plain timestamp text denotes, if it
/// parses under the format with date, time and optional fraction.
pub uninterp spec fn ts_micros_of(s: Seq<char>) -> Option<i64>;

/// The microseconds since the epoch an ISO-8601 timestamp text denotes, if
/// it parses.
pub uninterp spec fn iso_micros_of(s: Seq<char>) -> Option<i64>;

/// The days since the epoch a date text denotes, if it parses.
pub uninterp spec fn date_days_of(s: Seq<char>) -> Option<i32>;

/// Relies on chrono's `NaiveDateTime::parse_from_str` with the format
/// `%Y-%m-%d %H:%M:%S%.f`, interpretation as UTC, and the microsecond count
/// since the epoch; the result depends on the text alone.
#[verifier::external_body]
fn parse_plain_timestamp(raw: &str) -> (r: Option<i64>)
    ensures
        r == ts_micros_of(raw@),
{
    chrono::NaiveDateTime::parse_from_str(raw, "%Y-%m-%d %H:%M:%S%.f").ok().map(
        |t| chrono::TimeZone::from_utc_datetime(&chrono::Utc, &t),
    ).and_then(|t| t.signed_duration_since(chrono::DateTime::UNIX_EPOCH).num_microseconds())
}

/// Relies on chrono's `NaiveDateTime::parse_from_str` with the ISO-8601
/// format `%+`, interpretation as UTC, and the microsecond count since the
/// epoch; the result depends on the text alone.
#[verifier::external_body]
fn parse_iso_timestamp(raw: &str) -> (r: Option<i64>)
    ensures
        r == iso_micros_of(raw@),
{
    chrono::NaiveDateTime::parse_from_str(raw, "%+").ok().map(
        |t| chrono::TimeZone::from_utc_datetime(&chrono::Utc, &t),
    ).and_then(|t| t.signed_duration_since(chrono::DateTime::UNIX_EPOCH).num_microseconds())
}

/// Relies on chrono's `NaiveDate::parse_from_str` with the format
/// `%Y-%m-%d` and the day count since the epoch at midnight UTC, truncated
/// to 32 bits as the format stores dates; the result depends on the text
/// alone.
#[verifier::external_body]
fn parse_date_days(raw: &str) -> (r: Option<i32>)
    ensures
        r == date_days_of(raw@),
{
    chrono::NaiveDate::parse_from_str(raw, "%Y-%m-%d").ok().and_then(
        |d| d.and_hms_opt(0, 0, 0),
    ).map(|dt| chrono::TimeZone::from_utc_datetime(&chrono::Utc, &dt)).map(
        |d| d.signed_duration_since(chrono::DateTime::UNIX_EPOCH).num_days() as i32,
    )
}

/// The scalar a raw partition-value string denotes under a primitive type.
/// The empty string denotes the typed null. Floating-point types are not
/// modeled here.
pub open spec fn parse_scalar_spec(t: PrimitiveType, s: Seq<char>) -> Option<ScalarV> {
    if s.len() == 0 {
        Some(ScalarV::Null(DataTypeV::Primitive(t)))
    } else {
        match t {
            PrimitiveType::String => Some(ScalarV::String(s)),
            PrimitiveType::Binary => Some(ScalarV::Binary(encode_utf8(s))),
            PrimitiveType::Boolean => if eq_ignore_ascii_case(s, "true"@) {
                Some(ScalarV::Boolean(true))
            } else if eq_ignore_ascii_case(s, "false"@) {
                Some(ScalarV::Boolean(false))
            } else {
                None
            },
            PrimitiveType::Byte => match parse_int_spec(s) {
                Some(v) => if i8::MIN <= v <= i8::MAX {
                    Some(ScalarV::Byte(v as i8))
                } else {
                    None
                },
                None => None,
            },
            PrimitiveType::Short => match parse_int_spec(s) {
                Some(v) => if i16::MIN <= v <= i16::MAX {
                    Some(ScalarV::Short(v as i16))
                } else {
                    None
                },
                None => None,
            },
            PrimitiveType::Integer => match parse_int_spec(s) {
                Some(v) => if i32::MIN <= v <= i32::MAX {
                    Some(ScalarV::Integer(v as i32))
                } else {
                    None
                },
                None => None,
            },
            PrimitiveType::Long => match parse_int_spec(s) {
                Some(v) => if i64::MIN <= v <= i64::MAX {
                    Some(ScalarV::Long(v as i64))
                } else {
                    None
                },
                None => None,
            },
            PrimitiveType::Decimal(dt) => match parse_decimal_spec(s, dt) {
                Some(bits) => Some(ScalarV::Decimal(bits, dt)),
                None => None,
            },
            PrimitiveType::Date => match date_days_of(s) {
                Some(d) => Some(ScalarV::Date(d)),
                None => None,
            },
            PrimitiveType::Timestamp => match ts_micros_of(s) {
                Some(us) => Some(ScalarV::Timestamp(us)),
                None => match iso_micros_of(s) {
                    Some(us) => Some(ScalarV::Timestamp(us)),
                    None => None,
                },
            },
            PrimitiveType::TimestampNtz => match ts_micros_of(s) {
                Some(us) => Some(ScalarV::TimestampNtz(us)),
                None => None,
            },
            PrimitiveType::Float => arbitrary(),
            PrimitiveType::Double => arbitrary(),
        }
    }
}

impl PrimitiveType {
    /// The data type of this primitive type.
    pub fn data_type(&self) -> (r: DataType)
        ensures
            r@ == DataTypeV::Primitive(*self),
    {
        DataType::Primitive(*self)
    }

    /// The parse error for a raw string that does not denote a value of
    /// this type.
    pub fn parse_error(&self, raw: &str) -> (r: Error)
        ensures
            r matches Error::ParseError(m, dt) && m@ == raw@ && dt@ == DataTypeV::Primitive(
                *self,
            ),
    {
        Error::ParseError(String::from_str(raw), DataType::Primitive(*self))
    }

    /// Parses a raw partition-value string as a scalar of this type. The
    /// empty string parses as the typed null. Floating-point values cannot
    /// be carried here and are left out.
    pub fn parse_scalar(&self, raw: &str) -> (r: Result<Scalar, Error>)
        requires
            *self != PrimitiveType::Float,
            *self != PrimitiveType::Double,
        ensures
            r is Ok <==> parse_scalar_spec(*self, raw@) is Some,
            r matches Ok(s) ==> parse_scalar_spec(*self, raw@) == Some(s@),
            r matches Err(e) ==> e is ParseError || e is InvalidDecimal,
    {
        if raw.unicode_len() == 0 {
            return Ok(Scalar::Null(DataType::Primitive(*self)));
        }
        match self {
            PrimitiveType::String => Ok(Scalar::String(String::from_str(raw))),
            PrimitiveType::Binary => Ok(Scalar::Binary(raw.as_bytes_vec())),
            PrimitiveType::Boolean => {
                if str_eq_ignore_case(raw, "true") {
                    Ok(Scalar::Boolean(true))
                } else if str_eq_ignore_case(raw, "false") {
                    Ok(Scalar::Boolean(false))
                } else {
                    Err(self.parse_error(raw))
                }
            },
            PrimitiveType::Byte => {
                match parse_i128(raw) {
                    Some(v) => {
                        if i8::MIN as i128 <= v && v <= i8::MAX as i128 {
                            Ok(Scalar::Byte(v as i8))
                        } else {
                            Err(self.parse_error(raw))
                        }
                    },
                    None => Err(self.parse_error(raw)),
                }
            },
            PrimitiveType::Short => {
                match parse_i128(raw) {
                    Some(v) => {
                        if i16::MIN as i128 <= v && v <= i16::MAX as i128 {
                            Ok(Scalar::Short(v as i16))
                        } else {
                            Err(self.parse_error(raw))
                        }
                    },
                    None => Err(self.parse_error(raw)),
                }
            },
            PrimitiveType::Integer => {
                match parse_i128(raw) {
                    Some(v) => {
                        if i32::MIN as i128 <= v && v <= i32::MAX as i128 {
                            Ok(Scalar::Integer(v as i32))
                        } else {
                            Err(self.parse_error(raw))
                        }
                    },
                    None => Err(self.parse_error(raw)),
                }
            },
            PrimitiveType::Long => {
                match parse_i128(raw) {
                    Some(v) => {
                        if i64::MIN as i128 <= v && v <= i64::MAX as i128 {
                            Ok(Scalar::Long(v as i64))
                        } else {
                            Err(self.parse_error(raw))
                        }
                    },
                    None => Err(self.parse_error(raw)),
                }
            },
            PrimitiveType::Decimal(dt) => parse_decimal(raw, *dt),
            PrimitiveType::Date => {
                match parse_date_days(raw) {
                    Some(d) => Ok(Scalar::Date(d)),
                    None => Err(self.parse_error(raw)),
                }
            },
            PrimitiveType::Timestamp => {
                match parse_plain_timestamp(raw) {
                    Some(us) => Ok(Scalar::Timestamp(us)),
                    None => match parse_iso_timestamp(raw) {
                        Some(us) => Ok(Scalar::Timestamp(us)),
                        None => Err(self.parse_error(raw)),
                    },
                }
            },
            PrimitiveType::TimestampNtz => {
                match parse_plain_timestamp(raw) {
                    Some(us) => Ok(Scalar::TimestampNtz(us)),
                    None => Err(self.parse_error(raw)),
                }
            },
            PrimitiveType::Float => Err(self.parse_error(raw)),
            PrimitiveType::Double => Err(self.parse_error(raw)),
        }
    }
}



/// The value of a digit character matches the digit it renders.
proof fn lemma_digit_char_val(m: nat)
    requires
        m < 10,
    ensures
        digit_val(crate::strings::digit_char_of(m)) == m,
{
}

/// The digit rendering of a number denotes the number.
proof fn lemma_digits_val_of_dec_digits(n: nat)
    ensures
        digits_val(crate::strings::dec_digits(n)) == n,
    decreases n,
{
    let ds = crate::strings::dec_digits(n);
    if n < 10 {
        lemma_digit_char_val(n);
        assert(ds == seq![crate::strings::digit_char_of(n)]);
        assert(ds.drop_last() =~= Seq::<char>::empty());
        assert(digits_val(Seq::<char>::empty()) == 0);
        assert(ds.last() == crate::strings::digit_char_of(n));
        assert(digits_val(ds) == digits_val(ds.drop_last()) * 10 + digit_val(ds.last()));
    } else {
        lemma_digits_val_of_dec_digits(n / 10);
        lemma_digit_char_val(n % 10);
        assert(ds == crate::strings::dec_digits(n / 10).push(
            crate::strings::digit_char_of(n % 10),
        ));
        assert(ds.drop_last() =~= crate::strings::dec_digits(n / 10));
        assert(ds.last() == crate::strings::digit_char_of(n % 10));
    }
}

/// The value of a concatenation of digit strings.
proof fn lemma_digits_val_concat(a: Seq<char>, b: Seq<char>)
    ensures
        digits_val(a + b) == digits_val(a) * (crate::strings::pow10(b.len()) as int)
            + digits_val(b),
    decreases b.len(),
{
    if b.len() == 0 {
        assert(a + b =~= a);
        assert(crate::strings::pow10(0) == 1);
    } else {
        lemma_digits_val_concat(a, b.drop_last());
        assert((a + b).drop_last() =~= a + b.drop_last());
        assert((a + b).last() == b.last());
        assert(digits_val(a + b) == digits_val(a + b.drop_last()) * 10 + digit_val(b.last()));
        let p1 = crate::strings::pow10(b.drop_last().len()) as int;
        let p2 = crate::strings::pow10(b.len()) as int;
        assert(p2 == 10 * p1);
        assert((digits_val(a) * p1 + digits_val(b.drop_last())) * 10 + digit_val(b.last())
            == digits_val(a) * p2 + (digits_val(b.drop_last()) * 10 + digit_val(b.last())))
            by (nonlinear_arith)
            requires
                p2 == 10 * p1,
        ;
    }
}

/// A run of zeros denotes zero, in digit characters.
proof fn lemma_zeros_val(k: nat)
    ensures
        digits_val(crate::strings::zeros(k)) == 0,
        forall|i: int|
            0 <= i < k ==> is_digit_char(#[trigger] crate::strings::zeros(k)[i]),
    decreases k,
{
    if k > 0 {
        lemma_zeros_val((k - 1) as nat);
        assert(crate::strings::zeros(k).drop_last() =~= crate::strings::zeros((k - 1) as nat));
        assert(crate::strings::zeros(k).last() == '0');
    }
}

/// Decimal round trip: for every representable decimal, parsing the
/// rendering under the same type yields the same unscaled integer.
pub proof fn lemma_decimal_round_trip(bits: i128, ty: DecimalType)
    requires
        ty.valid(),
        dec_precision(bits as int) <= ty.precision,
    ensures
        parse_decimal_spec(crate::display::dec_display(bits as int, ty.scale as int), ty)
            == Some(bits),
{
    if ty.scale == 0 {
        lemma_round_trip_scale_zero(bits, ty);
    } else {
        lemma_round_trip_positive_scale(bits, ty);
    }
}

/// The digits of a rendering are plain digits: none is a marker, a dot or a
/// sign.
proof fn lemma_digit_chars_plain(n: nat)
    ensures
        forall|i: int|
            0 <= i < crate::strings::dec_digits(n).len()
                ==> is_plain_digit(#[trigger] crate::strings::dec_digits(n)[i]),
{
    crate::strings::lemma_dec_digits_are_digits(n);
}

/// Whether a character is a digit; a digit is never a marker, a dot or a
/// sign.
pub open spec fn is_plain_digit(c: char) -> bool {
    &&& is_digit_char(c)
    &&& c != 'e'
    &&& c != 'E'
    &&& c != '.'
    &&& c != '-'
    &&& c != '+'
}

/// Round trip at scale zero: the rendering is the signed digit string.
proof fn lemma_round_trip_scale_zero(bits: i128, ty: DecimalType)
    requires
        ty.valid(),
        ty.scale == 0,
        dec_precision(bits as int) <= ty.precision,
    ensures
        parse_decimal_spec(crate::display::dec_display(bits as int, 0), ty) == Some(bits),
{
    let s0 = crate::strings::int_chars(bits as int);
    let mag: nat = (if bits < 0 {
        -(bits as int)
    } else {
        bits as int
    }) as nat;
    let ds = crate::strings::dec_digits(mag);
    crate::strings::lemma_dec_digits_len(mag);
    lemma_digit_chars_plain(mag);
    lemma_digits_val_of_dec_digits(mag);
    if bits < 0 {
        assert(s0 == seq!['-'] + ds);
        assert(s0[0] == '-');
        assert forall|j: int| 0 <= j < s0.len() implies #[trigger] s0[j] != 'e' && s0[j] != 'E'
            && s0[j] != '.' by {
            if j > 0 {
                assert(s0[j] == ds[j - 1]);
            }
        }
        lemma_find_e_at(s0, s0.len() as int);
        lemma_find_dot_at(s0, s0.len() as int);
        assert(s0.drop_first() =~= ds);
        assert(is_digit_seq(ds));
        assert(s0 + Seq::<char>::empty() =~= s0);
        assert(parse_int_spec(s0) == Some(-(mag as int)));
        assert(parse_decimal_spec(s0, ty) == Some(bits));
    } else {
        assert(s0 == ds);
        assert forall|j: int| 0 <= j < s0.len() implies #[trigger] s0[j] != 'e' && s0[j] != 'E'
            && s0[j] != '.' by {
            assert(s0[j] == ds[j]);
        }
        lemma_find_e_at(s0, s0.len() as int);
        lemma_find_dot_at(s0, s0.len() as int);
        assert(is_digit_seq(s0));
        assert(s0[0] != '-' && s0[0] != '+');
        assert(s0 + Seq::<char>::empty() =~= s0);
        assert(parse_int_spec(s0) == Some(mag as int));
        assert(parse_decimal_spec(s0, ty) == Some(bits));
    }
}

/// Round trip at a positive scale: the rendering is an optional sign, the
/// magnitude's quotient digits, a dot, and the padded remainder digits,
/// which join back to the signed unscaled integer.
proof fn lemma_round_trip_positive_scale(bits: i128, ty: DecimalType)
    requires
        ty.valid(),
        ty.scale >= 1,
        dec_precision(bits as int) <= ty.precision,
    ensures
        parse_decimal_spec(crate::display::dec_display(bits as int, ty.scale as int), ty)
            == Some(bits),
{
    let scale = ty.scale as nat;
    let p = crate::strings::pow10(scale);
    crate::strings::lemma_pow10_pos(scale);
    let b = bits as int;
    let mag = crate::display::abs_of(b);
    let q = mag / p;
    let r = mag % p;
    vstd::arithmetic::div_mod::lemma_fundamental_div_mod(mag as int, p as int);
    assert(mag == p * q + r);
    let sign: Seq<char> = if b < 0 {
        seq!['-']
    } else {
        Seq::<char>::empty()
    };
    let sl = sign.len() as int;
    let qd = crate::strings::dec_digits(q);
    let rd = crate::strings::dec_digits(r);
    crate::strings::lemma_dec_digits_len_eq(r);
    crate::strings::lemma_num_digits_le(r, scale);
    let rdl = rd.len();
    assert(rdl <= scale);
    let padded = crate::strings::left_zero_pad(rd, scale);
    let zs = crate::strings::zeros((scale - rdl) as nat);
    if rdl < scale {
        assert(padded == zs + rd);
    } else {
        assert(padded == rd);
        assert(zs =~= Seq::<char>::empty());
        assert(padded =~= zs + rd);
    }
    assert(padded.len() == scale);
    let s0 = sign + qd + seq!['.'] + padded;
    assert(crate::display::dec_display(b, ty.scale as int) == s0);
    crate::strings::lemma_dec_digits_len(q);
    lemma_digit_chars_plain(q);
    lemma_digit_chars_plain(r);
    lemma_zeros_val((scale - rdl) as nat);
    let k = sl + qd.len() as int;
    assert forall|j: int| 0 <= j < s0.len() implies #[trigger] s0[j] != 'e' && s0[j]
        != 'E' by {
        if j < sl {
            assert(s0[j] == '-');
        } else if j < k {
            assert(s0[j] == qd[j - sl]);
        } else if j == k {
            assert(s0[j] == '.');
        } else if j < k + 1 + (scale - rdl) {
            assert(s0[j] == zs[j - k - 1]);
            assert(is_digit_char(s0[j]));
        } else {
            assert(s0[j] == rd[j - k - 1 - (scale - rdl)]);
        }
    }
    lemma_find_e_at(s0, s0.len() as int);
    assert forall|j: int| 0 <= j < k implies #[trigger] s0[j] != '.' by {
        if j < sl {
            assert(s0[j] == '-');
        } else {
            assert(s0[j] == qd[j - sl]);
        }
    }
    assert(s0[k] == '.');
    lemma_find_dot_at(s0, k);
    assert(find_first_dot(s0) == Some(k));
    assert(k < s0.len() - 1);
    let int_part = s0.take(k);
    let frac_part = s0.skip(k + 1);
    assert(int_part =~= sign + qd);
    assert(frac_part =~= padded);
    assert(frac_part.len() - 0 == ty.scale as int);
    let joined = int_part + frac_part;
    assert(joined =~= (sign + qd) + (zs + rd));
    lemma_digits_val_of_dec_digits(q);
    lemma_digits_val_of_dec_digits(r);
    lemma_digits_val_concat(zs, rd);
    lemma_digits_val_concat(qd, zs + rd);
    assert(digits_val(zs + rd) == 0 * (crate::strings::pow10(rdl) as int) + r);
    assert((zs + rd).len() == scale);
    let digits = qd + (zs + rd);
    assert(digits_val(digits) == q * (p as int) + r);
    assert(q * (p as int) == (p as int) * q) by (nonlinear_arith);
    assert(digits_val(digits) == mag);
    assert forall|j: int| 0 <= j < digits.len() implies is_digit_char(
        #[trigger] digits[j],
    ) by {
        if j < qd.len() {
            assert(digits[j] == qd[j]);
        } else if j < qd.len() + (scale - rdl) {
            assert(digits[j] == zs[j - qd.len()]);
        } else {
            assert(digits[j] == rd[j - qd.len() - (scale - rdl)]);
        }
    }
    assert(is_digit_seq(digits));
    if b < 0 {
        assert(joined =~= seq!['-'] + digits);
        assert(joined[0] == '-');
        assert(joined.drop_first() =~= digits);
        assert(parse_int_spec(joined) == Some(-(mag as int)));
        assert(-(mag as int) == b);
    } else {
        assert(joined =~= digits);
        assert(joined[0] == qd[0]);
        assert(joined[0] != '-' && joined[0] != '+');
        assert(parse_int_spec(joined) == Some(mag as int));
    }
    assert(parse_decimal_spec(s0, ty) == Some(bits));
}


} // verus!
