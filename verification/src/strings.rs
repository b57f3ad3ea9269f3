//! Verified string utilities: equality and lexicographic comparison over
//! UTF-8 bytes, and decimal rendering of integers.
use vstd::prelude::*;

verus! {

use vstd::utf8::{encode_utf8, decode_utf8, encode_utf8_decode_utf8};

/// The character for a single decimal digit.
pub open spec fn digit_char_of(d: nat) -> char {
    if d == 0 {
        '0'
    } else if d == 1 {
        '1'
    } else if d == 2 {
        '2'
    } else if d == 3 {
        '3'
    } else if d == 4 {
        '4'
    } else if d == 5 {
        '5'
    } else if d == 6 {
        '6'
    } else if d == 7 {
        '7'
    } else if d == 8 {
        '8'
    } else {
        '9'
    }
}

/// The decimal digits of a nonnegative integer, most significant first.
pub open spec fn dec_digits(n: nat) -> Seq<char>
    decreases n,
{
    if n < 10 {
        seq![digit_char_of(n)]
    } else {
        dec_digits(n / 10).push(digit_char_of(n % 10))
    }
}

/// The decimal rendering of an integer: a minus sign for negatives,
/// then the digits of the magnitude.
pub open spec fn int_chars(v: int) -> Seq<char> {
    if v < 0 {
        seq!['-'] + dec_digits((-v) as nat)
    } else {
        dec_digits(v as nat)
    }
}

pub proof fn lemma_dec_digits_len(n: nat)
    ensures
        dec_digits(n).len() >= 1,
    decreases n,
{
    if n >= 10 {
        lemma_dec_digits_len(n / 10);
    }
}

/// The count of base-10 digits of a nonnegative integer; one for zero.
pub open spec fn num_digits(n: nat) -> nat
    decreases n,
{
    if n < 10 {
        1
    } else {
        1 + num_digits(n / 10)
    }
}

/// Ten to the given power.
pub open spec fn pow10(e: nat) -> nat
    decreases e,
{
    if e == 0 {
        1
    } else {
        10 * pow10((e - 1) as nat)
    }
}

/// The digit rendering has exactly `num_digits` characters.
pub proof fn lemma_dec_digits_len_eq(n: nat)
    ensures
        dec_digits(n).len() == num_digits(n),
    decreases n,
{
    if n >= 10 {
        lemma_dec_digits_len_eq(n / 10);
    }
}

/// Powers of ten are positive.
pub proof fn lemma_pow10_pos(e: nat)
    ensures
        pow10(e) >= 1,
    decreases e,
{
    if e > 0 {
        lemma_pow10_pos((e - 1) as nat);
    }
}

/// Powers of ten are monotonic.
pub proof fn lemma_pow10_mono(a: nat, b: nat)
    requires
        a <= b,
    ensures
        1 <= pow10(a) <= pow10(b),
    decreases b,
{
    lemma_pow10_pos(a);
    if a < b {
        lemma_pow10_mono(a, (b - 1) as nat);
    }
}

/// A number below `pow10(p)` has at most `p` digits.
pub proof fn lemma_num_digits_le(n: nat, p: nat)
    requires
        p >= 1,
        n < pow10(p),
    ensures
        num_digits(n) <= p,
    decreases p,
{
    if n >= 10 {
        assert(pow10(p) == 10 * pow10((p - 1) as nat));
        lemma_num_digits_le(n / 10, (p - 1) as nat);
    }
}

/// Whether a character is a decimal digit.
pub open spec fn is_digit_char(c: char) -> bool {
    '0' <= c <= '9'
}

/// Every character of a decimal rendering of a nonnegative integer is a digit.
pub proof fn lemma_dec_digits_are_digits(n: nat)
    ensures
        forall|i: int|
            #![trigger dec_digits(n)[i]]
            0 <= i < dec_digits(n).len() ==> is_digit_char(dec_digits(n)[i]),
    decreases n,
{
    if n < 10 {
        assert(dec_digits(n) =~= seq![digit_char_of(n)]);
        assert(is_digit_char(digit_char_of(n)));
    } else {
        lemma_dec_digits_are_digits(n / 10);
        assert forall|i: int|
            #![trigger dec_digits(n)[i]]
            0 <= i < dec_digits(n).len() implies is_digit_char(dec_digits(n)[i]) by {
            let head = dec_digits(n / 10);
            assert(dec_digits(n) == head.push(digit_char_of(n % 10)));
            if i < head.len() {
                assert(dec_digits(n)[i] == head[i]);
            } else {
                assert(dec_digits(n)[i] == digit_char_of(n % 10));
                assert(is_digit_char(digit_char_of(n % 10)));
            }
        }
    }
}

/// The exec digit character for a digit value.
pub fn digit_char(d: u8) -> (r: char)
    requires
        d < 10,
    ensures
        r == digit_char_of(d as nat),
{
    match d {
        0 => '0',
        1 => '1',
        2 => '2',
        3 => '3',
        4 => '4',
        5 => '5',
        6 => '6',
        7 => '7',
        8 => '8',
        _ => '9',
    }
}

/// Relies on `String::push` of std: appends exactly the given character to
/// the string.
#[verifier::external_body]
pub fn push_char(s: &mut String, c: char)
    ensures
        final(s)@ == old(s)@.push(c),
{
    s.push(c);
}

/// Renders an unsigned integer in decimal.
pub fn u128_to_string(n: u128) -> (r: String)
    ensures
        r@ == dec_digits(n as nat),
{
    let mut rev: Vec<char> = Vec::new();
    let mut m: u128 = n;
    while m >= 10
        invariant
            dec_digits(n as nat) =~= dec_digits(m as nat) + rev@.reverse(),
        decreases m,
    {
        let d: u8 = (m % 10) as u8;
        proof {
            assert(dec_digits(m as nat) == dec_digits((m as nat) / 10).push(
                digit_char_of((m as nat) % 10),
            ));
            assert((m as nat) / 10 == ((m / 10) as nat));
            assert((m as nat) % 10 == ((m % 10) as nat));
            assert(rev@.push(digit_char_of(d as nat)).reverse() =~= seq![
                digit_char_of(d as nat),
            ] + rev@.reverse());
        }
        rev.push(digit_char(d));
        m = m / 10;
    }
    let mut out = String::new();
    push_char(&mut out, digit_char((m % 10) as u8));
    proof {
        assert(dec_digits(m as nat) =~= seq![digit_char_of((m % 10) as nat)]);
        assert(out@ =~= dec_digits(m as nat) + rev@.reverse().take(0));
    }
    let k = rev.len();
    let mut i: usize = 0;
    while i < k
        invariant
            k == rev@.len(),
            i <= k,
            out@ =~= dec_digits(m as nat) + rev@.reverse().take(i as int),
            dec_digits(n as nat) =~= dec_digits(m as nat) + rev@.reverse(),
        decreases k - i,
    {
        proof {
            assert(rev@.reverse()[i as int] == rev@[k - 1 - i]);
            assert(rev@.reverse().take(i + 1) =~= rev@.reverse().take(i as int).push(
                rev@.reverse()[i as int],
            ));
        }
        push_char(&mut out, rev[k - 1 - i]);
        i = i + 1;
    }
    proof {
        assert(rev@.reverse().take(k as int) =~= rev@.reverse());
    }
    out
}

/// Renders a signed integer in decimal.
pub fn i128_to_string(v: i128) -> (r: String)
    ensures
        r@ == int_chars(v as int),
{
    if v < 0 {
        let mag: u128 = if v == i128::MIN {
            170141183460469231731687303715884105728u128
        } else {
            (-v) as u128
        };
        let digits = u128_to_string(mag);
        let mut out = String::new();
        push_char(&mut out, '-');
        let r = out.concat(digits.as_str());
        proof {
            assert(r@ =~= seq!['-'] + dec_digits(mag as nat));
        }
        r
    } else {
        u128_to_string(v as u128)
    }
}

/// Renders a signed 64-bit integer in decimal.
pub fn i64_to_string(v: i64) -> (r: String)
    ensures
        r@ == int_chars(v as int),
{
    i128_to_string(v as i128)
}

/// Renders an unsigned 64-bit integer in decimal.
pub fn u64_to_string(v: u64) -> (r: String)
    ensures
        r@ == dec_digits(v as nat),
{
    u128_to_string(v as u128)
}

/// Whether two strings hold the same characters.
pub fn str_eq(a: &str, b: &str) -> (r: bool)
    ensures
        r == (a@ == b@),
{
    let ab = a.as_bytes();
    let bb = b.as_bytes();
    proof {
        encode_utf8_decode_utf8(a@);
        encode_utf8_decode_utf8(b@);
    }
    if ab.len() != bb.len() {
        return false;
    }
    let n = ab.len();
    for i in 0..n
        invariant
            n == ab@.len() == bb@.len(),
            ab@ == encode_utf8(a@),
            bb@ == encode_utf8(b@),
            decode_utf8(encode_utf8(a@)) == a@,
            decode_utf8(encode_utf8(b@)) == b@,
            forall|j: int| 0 <= j < i ==> ab@[j] == bb@[j],
    {
        if ab[i] != bb[i] {
            return false;
        }
    }
    proof {
        assert(ab@ =~= bb@);
    }
    true
}

/// Lexicographic comparison of two byte sequences.
pub open spec fn lex_cmp_bytes(a: Seq<u8>, b: Seq<u8>) -> core::cmp::Ordering
    decreases a.len(),
{
    if a.len() == 0 && b.len() == 0 {
        core::cmp::Ordering::Equal
    } else if a.len() == 0 {
        core::cmp::Ordering::Less
    } else if b.len() == 0 {
        core::cmp::Ordering::Greater
    } else if a[0] < b[0] {
        core::cmp::Ordering::Less
    } else if a[0] > b[0] {
        core::cmp::Ordering::Greater
    } else {
        lex_cmp_bytes(a.drop_first(), b.drop_first())
    }
}

/// Equal byte sequences compare `Equal`, and conversely.
pub proof fn lemma_lex_cmp_bytes_eq(a: Seq<u8>, b: Seq<u8>)
    ensures
        lex_cmp_bytes(a, b) == core::cmp::Ordering::Equal <==> a == b,
    decreases a.len(),
{
    if a.len() == 0 && b.len() == 0 {
        assert(a =~= b);
    } else if a.len() != 0 && b.len() != 0 && a[0] == b[0] {
        lemma_lex_cmp_bytes_eq(a.drop_first(), b.drop_first());
        if lex_cmp_bytes(a, b) == core::cmp::Ordering::Equal {
            assert(a =~= seq![a[0]] + a.drop_first());
            assert(b =~= seq![b[0]] + b.drop_first());
        }
        if a == b {
            assert(a.drop_first() =~= b.drop_first());
        }
    } else {
        assert(a != b);
    }
}

/// Compares two byte slices lexicographically.
pub fn cmp_bytes(a: &[u8], b: &[u8]) -> (r: core::cmp::Ordering)
    ensures
        r == lex_cmp_bytes(a@, b@),
{
    let an = a.len();
    let bn = b.len();
    let mut i: usize = 0;
    proof {
        assert(a@.skip(0) =~= a@);
        assert(b@.skip(0) =~= b@);
    }
    loop
        invariant
            an == a@.len(),
            bn == b@.len(),
            i <= an,
            i <= bn,
            lex_cmp_bytes(a@, b@) == lex_cmp_bytes(a@.skip(i as int), b@.skip(i as int)),
        decreases an - i,
    {
        if i == an && i == bn {
            return core::cmp::Ordering::Equal;
        } else if i == an {
            return core::cmp::Ordering::Less;
        } else if i == bn {
            return core::cmp::Ordering::Greater;
        } else {
            let x = a[i];
            let y = b[i];
            if x < y {
                return core::cmp::Ordering::Less;
            } else if x > y {
                return core::cmp::Ordering::Greater;
            }
            proof {
                assert(a@.skip(i as int).drop_first() =~= a@.skip(i + 1));
                assert(b@.skip(i as int).drop_first() =~= b@.skip(i + 1));
            }
            i = i + 1;
        }
    }
}

/// Compares two strings by the lexicographic order of their UTF-8 bytes,
/// which is the order `str` documents. `Equal` holds exactly for equal
/// character sequences.
pub fn cmp_str(a: &str, b: &str) -> (r: core::cmp::Ordering)
    ensures
        r == lex_cmp_bytes(encode_utf8(a@), encode_utf8(b@)),
        r == core::cmp::Ordering::Equal <==> a@ == b@,
{
    let r = cmp_bytes(a.as_bytes(), b.as_bytes());
    proof {
        lemma_lex_cmp_bytes_eq(encode_utf8(a@), encode_utf8(b@));
        encode_utf8_decode_utf8(a@);
        encode_utf8_decode_utf8(b@);
    }
    r
}


/// A run of zero characters.
pub open spec fn zeros(n: nat) -> Seq<char> {
    Seq::new(n, |i: int| '0')
}

/// A sequence left-padded with zeros to the given width.
pub open spec fn left_zero_pad(s: Seq<char>, w: nat) -> Seq<char> {
    if s.len() >= w {
        s
    } else {
        zeros((w - s.len()) as nat) + s
    }
}

/// Left-pads a rendered number with zeros to the given width.
pub fn pad_number_string(s: &str, width: usize) -> (r: String)
    ensures
        r@ == left_zero_pad(s@, width as nat),
{
    let len = s.unicode_len();
    if len >= width {
        return String::from_str(s);
    }
    let mut out = String::new();
    let pad = width - len;
    let mut j: usize = 0;
    while j < pad
        invariant
            j <= pad,
            out@.len() == j,
            forall|k: int| 0 <= k < j ==> out@[k] == '0',
        decreases pad - j,
    {
        push_char(&mut out, '0');
        j = j + 1;
    }
    proof {
        assert(out@ =~= zeros(pad as nat));
    }
    let r = out.concat(s);
    proof {
        assert(r@ =~= left_zero_pad(s@, width as nat));
    }
    r
}

/// Renders an unsigned 64-bit integer in decimal, left-padded with zeros to
/// the given width.
pub fn u64_to_padded_string(v: u64, width: usize) -> (r: String)
    ensures
        r@ == left_zero_pad(dec_digits(v as nat), width as nat),
{
    let digits = u64_to_string(v);
    let len = digits.as_str().unicode_len();
    if len >= width {
        return digits;
    }
    let mut out = String::new();
    let pad = width - len;
    let mut j: usize = 0;
    while j < pad
        invariant
            j <= pad,
            out@.len() == j,
            forall|k: int| 0 <= k < j ==> out@[k] == '0',
        decreases pad - j,
    {
        push_char(&mut out, '0');
        j = j + 1;
    }
    proof {
        assert(out@ =~= zeros(pad as nat));
    }
    let r = out.concat(digits.as_str());
    proof {
        assert(r@ =~= left_zero_pad(dec_digits(v as nat), width as nat));
    }
    r
}


} // verus!
