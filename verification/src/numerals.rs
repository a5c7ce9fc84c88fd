//! Numbers as text, text as numbers, and text as bytes.

use vstd::prelude::*;
use vstd::string::*;
use vstd::utf8::*;

use crate::text::chars_of;

verus! {

// ---------------------------------------------------------------------------
// Decimal and hexadecimal notation
// ---------------------------------------------------------------------------

pub open spec fn digit_char(d: nat) -> char {
    ('0' as u32 + d) as char
}

/// The decimal notation of a natural number.
pub open spec fn dec(n: nat) -> Seq<char>
    decreases n,
{
    if n < 10 {
        seq![digit_char(n)]
    } else {
        dec(n / 10).push(digit_char(n % 10))
    }
}

/// The decimal notation of an integer.
pub open spec fn dec_int(n: int) -> Seq<char> {
    if n < 0 {
        seq!['-'] + dec((-n) as nat)
    } else {
        dec(n as nat)
    }
}

/// The decimal notation of an integer that always carries its sign.
pub open spec fn dec_signed(n: int) -> Seq<char> {
    if n < 0 {
        dec_int(n)
    } else {
        seq!['+'] + dec(n as nat)
    }
}

pub fn dec_u64(n: u64) -> (r: String)
    ensures
        r@ == dec(n as nat),
    decreases n,
{
    let d = (n % 10) as u8;
    let c = (48u8 + d) as char;
    if n < 10 {
        let mut out = String::new();
        out.push(c);
        proof {
            assert(out@ =~= seq![digit_char(n as nat)]);
        }
        out
    } else {
        let mut out = dec_u64(n / 10);
        out.push(c);
        out
    }
}

pub fn dec_i64(n: i64) -> (r: String)
    ensures
        r@ == dec_int(n as int),
{
    if n >= 0 {
        dec_u64(n as u64)
    } else {
        let m: u64 = if n == i64::MIN {
            9_223_372_036_854_775_808u64
        } else {
            (-n) as u64
        };
        let body = dec_u64(m);
        let mut out = String::new();
        out.push('-');
        out.append(body.as_str());
        proof {
            assert(out@ =~= seq!['-'] + body@);
        }
        out
    }
}

pub fn dec_signed_i32(n: i32) -> (r: String)
    ensures
        r@ == dec_signed(n as int),
{
    if n < 0 {
        dec_i64(n as i64)
    } else {
        let body = dec_i64(n as i64);
        let mut out = String::new();
        out.push('+');
        out.append(body.as_str());
        proof {
            assert(out@ =~= seq!['+'] + body@);
        }
        out
    }
}

pub open spec fn hex_lower_char(d: nat) -> char {
    if d < 10 {
        ('0' as u32 + d) as char
    } else {
        ('a' as u32 + d - 10) as char
    }
}

pub open spec fn hex_upper_char(d: nat) -> char {
    if d < 10 {
        ('0' as u32 + d) as char
    } else {
        ('A' as u32 + d - 10) as char
    }
}

/// The hexadecimal notation of a natural number in small letters.
pub open spec fn hex_lower(n: nat) -> Seq<char>
    decreases n,
{
    if n < 16 {
        seq![hex_lower_char(n)]
    } else {
        hex_lower(n / 16).push(hex_lower_char(n % 16))
    }
}

/// A byte as two hexadecimal digits in capitals.
pub open spec fn hex_pair(b: u8) -> Seq<char> {
    seq![hex_upper_char((b / 16) as nat), hex_upper_char((b % 16) as nat)]
}

pub fn hex_u64(n: u64) -> (r: String)
    ensures
        r@ == hex_lower(n as nat),
    decreases n,
{
    let d = (n % 16) as u8;
    let c = if d < 10 {
        (48u8 + d) as char
    } else {
        (87u8 + d) as char
    };
    if n < 16 {
        let mut out = String::new();
        out.push(c);
        proof {
            assert(out@ =~= seq![hex_lower_char(n as nat)]);
        }
        out
    } else {
        let mut out = hex_u64(n / 16);
        out.push(c);
        out
    }
}

fn hex_digit_upper(d: u8) -> (c: char)
    requires
        d < 16,
    ensures
        c == hex_upper_char(d as nat),
{
    if d < 10 {
        (48u8 + d) as char
    } else {
        (55u8 + d) as char
    }
}

/// Appends the two hexadecimal digits of a byte to a text.
pub fn push_hex_pair(out: &mut String, b: u8)
    ensures
        final(out)@ == old(out)@ + hex_pair(b),
{
    out.push(hex_digit_upper(b / 16));
    out.push(hex_digit_upper(b % 16));
    proof {
        assert(out@ =~= old(out)@ + hex_pair(b));
    }
}

// ---------------------------------------------------------------------------
// Reading unsigned numbers
// ---------------------------------------------------------------------------

pub open spec fn is_digit(c: char) -> bool {
    '0' <= c <= '9'
}

pub open spec fn all_digits(s: Seq<char>) -> bool {
    forall|i: int| 0 <= i < s.len() ==> is_digit(#[trigger] s[i])
}

/// The number that a row of decimal digits denotes.
pub open spec fn digits_value(s: Seq<char>) -> nat
    decreases s.len(),
{
    if s.len() == 0 {
        0
    } else {
        digits_value(s.drop_last()) * 10 + (s.last() as u32 - '0' as u32) as nat
    }
}

/// `s` without one leading plus sign.
pub open spec fn without_plus(s: Seq<char>) -> Seq<char> {
    if s.len() > 0 && s[0] == '+' {
        s.skip(1)
    } else {
        s
    }
}

/// The number not above `max` that a text denotes: an optional plus sign and at least one
/// decimal digit.
pub open spec fn parsed_unsigned(s: Seq<char>, max: nat) -> Option<nat> {
    let d = without_plus(s);
    if d.len() > 0 && all_digits(d) && digits_value(d) <= max {
        Some(digits_value(d))
    } else {
        None
    }
}

proof fn digits_value_grows(s: Seq<char>, k: int)
    requires
        0 <= k <= s.len(),
        all_digits(s),
    ensures
        digits_value(s.take(k)) <= digits_value(s),
    decreases s.len() - k,
{
    if k < s.len() {
        digits_value_grows(s, k + 1);
        assert(s.take(k + 1).drop_last() =~= s.take(k));
        assert(is_digit(s[k]));
    } else {
        assert(s.take(k) =~= s);
    }
}

pub fn parse_unsigned(s: &str, max: u64) -> (r: Option<u64>)
    ensures
        match r {
            Some(n) => parsed_unsigned(s@, max as nat) == Some(n as nat),
            None => parsed_unsigned(s@, max as nat) is None,
        },
{
    let v = chars_of(s);
    let start: usize = if v.len() > 0 && v[0] == '+' {
        1
    } else {
        0
    };
    let ghost d = without_plus(s@);
    proof {
        assert(d =~= v@.skip(start as int));
    }
    if start == v.len() {
        return None;
    }
    let mut acc: u64 = 0;
    let mut i: usize = start;
    proof {
        assert(d.take(0) =~= Seq::<char>::empty());
    }
    while i < v.len()
        invariant
            start <= i <= v@.len(),
            v@ == s@,
            d == without_plus(s@),
            d == v@.skip(start as int),
            acc <= max,
            all_digits(d.take(i - start)),
            acc == digits_value(d.take(i - start)),
        decreases v@.len() - i,
    {
        let c = v[i];
        let ghost k = i - start;
        proof {
            assert(d[k] == c);
            assert(d.take(k + 1).drop_last() =~= d.take(k));
            assert(d.take(k + 1).last() == c);
        }
        if !('0' <= c && c <= '9') {
            return None;
        }
        let x = (c as u8 - 48) as u64;
        proof {
            assert(digits_value(d.take(k + 1)) == acc * 10 + x);
            assert(all_digits(d.take(k + 1))) by {
                assert forall|j: int| 0 <= j < k + 1 implies is_digit(
                    #[trigger] d.take(k + 1)[j],
                ) by {
                    if j < k {
                        assert(d.take(k)[j] == d[j]);
                    }
                }
            }
        }
        if x > max || acc > (max - x) / 10 {
            proof {
                if all_digits(d) {
                    digits_value_grows(d, k + 1);
                }
                assert(digits_value(d.take(k + 1)) > max);
            }
            return None;
        }
        acc = acc * 10 + x;
        i += 1;
    }
    proof {
        assert(d.take(i - start) =~= d);
    }
    Some(acc)
}

// ---------------------------------------------------------------------------
// Text and bytes
// ---------------------------------------------------------------------------

/// The UTF-8 bytes of a text.
pub fn bytes_of(s: &str) -> (r: Vec<u8>)
    ensures
        r@ == encode_utf8(s@),
{
    let b = s.as_bytes();
    let mut out: Vec<u8> = Vec::new();
    let mut i: usize = 0;
    while i < b.len()
        invariant
            i <= b@.len(),
            out@ == b@.take(i as int),
        decreases b@.len() - i,
    {
        out.push(b[i]);
        proof {
            assert(b@.take(i + 1) =~= b@.take(i as int).push(b@[i as int]));
        }
        i += 1;
    }
    proof {
        assert(b@.take(i as int) =~= b@);
    }
    out
}

/// The number of bytes that a text takes in UTF-8.
pub fn byte_len(s: &str) -> (r: usize)
    ensures
        r == encode_utf8(s@).len(),
{
    s.as_bytes().len()
}

/// What `String::from_utf8_lossy` returns for a byte string.
pub uninterp spec fn utf8_lossy(bytes: Seq<u8>) -> Seq<char>;

/// `String::from_utf8_lossy`: the text that valid UTF-8 encodes. For other byte strings the
/// invalid sequences are replaced by U+FFFD; how many replacement characters there are is not
/// stated, only that the result depends on the bytes alone.
#[verifier::external_body]
pub(crate) fn lossy_text(bytes: &Vec<u8>) -> (r: String)
    ensures
        r@ == utf8_lossy(bytes@),
        valid_utf8(bytes@) ==> r@ == decode_utf8(bytes@),
{
    String::from_utf8_lossy(bytes).into_owned()
}

/// The text of the error of `String::from_utf8` on a byte string.
pub uninterp spec fn utf8_error(bytes: Seq<u8>) -> Seq<char>;

/// `String::from_utf8`: the text that a byte string encodes, if it is valid UTF-8, and else the
/// text of the error, which is not written out here.
#[verifier::external_body]
pub(crate) fn utf8_text(bytes: Vec<u8>) -> (r: Result<String, String>)
    ensures
        match r {
            Ok(s) => valid_utf8(bytes@) && s@ == decode_utf8(bytes@),
            Err(e) => !valid_utf8(bytes@) && e@ == utf8_error(bytes@),
        },
{
    String::from_utf8(bytes).map_err(|e| e.to_string())
}

/// Appends a byte string to another.
pub fn extend_bytes(out: &mut Vec<u8>, more: &Vec<u8>)
    ensures
        final(out)@ == old(out)@ + more@,
{
    let mut i: usize = 0;
    while i < more.len()
        invariant
            i <= more@.len(),
            out@ == old(out)@ + more@.take(i as int),
        decreases more@.len() - i,
    {
        out.push(more[i]);
        proof {
            assert(more@.take(i + 1) =~= more@.take(i as int).push(more@[i as int]));
            assert(out@ =~= old(out)@ + more@.take(i + 1));
        }
        i += 1;
    }
    proof {
        assert(more@.take(i as int) =~= more@);
    }
}

/// The bytes from position `from` up to, not including, `to`.
pub fn bytes_between(v: &Vec<u8>, from: usize, to: usize) -> (r: Vec<u8>)
    requires
        from <= to <= v@.len(),
    ensures
        r@ == v@.subrange(from as int, to as int),
{
    let mut out: Vec<u8> = Vec::new();
    let mut i: usize = from;
    while i < to
        invariant
            from <= i <= to <= v@.len(),
            out@ == v@.subrange(from as int, i as int),
        decreases to - i,
    {
        out.push(v[i]);
        proof {
            assert(v@.subrange(from as int, i + 1) =~= v@.subrange(from as int, i as int).push(
                v@[i as int],
            ));
        }
        i += 1;
    }
    out
}

// ---------------------------------------------------------------------------
// What reading gives back of writing
// ---------------------------------------------------------------------------

/// The decimal notation of a number is made of digits and denotes the number.
pub proof fn decimal_denotes(n: nat)
    ensures
        dec(n).len() > 0,
        all_digits(dec(n)),
        digits_value(dec(n)) == n,
        n > 0 ==> dec(n)[0] != '0',
    decreases n,
{
    let c = digit_char(n % 10);
    assert(c as u32 - '0' as u32 == n % 10);
    assert(is_digit(c));
    if n < 10 {
        assert(dec(n).drop_last() =~= Seq::<char>::empty());
        assert(digits_value(dec(n).drop_last()) == 0);
        assert(dec(n).last() == c);
    } else {
        decimal_denotes(n / 10);
        let before = dec(n / 10);
        assert(dec(n).drop_last() =~= before);
        assert forall|i: int| 0 <= i < dec(n).len() implies is_digit(#[trigger] dec(n)[i]) by {
            if i < before.len() {
                assert(dec(n)[i] == before[i]);
            }
        }
        assert(dec(n)[0] == before[0]);
    }
}

/// A number that is not above the bound is read back from its decimal notation, with or without
/// a plus sign; one above it is not read.
pub proof fn decimal_reads_back(n: nat, max: nat)
    ensures
        parsed_unsigned(dec(n), max) == (if n <= max {
            Some(n)
        } else {
            None
        }),
        parsed_unsigned(seq!['+'] + dec(n), max) == (if n <= max {
            Some(n)
        } else {
            None
        }),
{
    decimal_denotes(n);
    assert(is_digit(dec(n)[0]));
    assert(without_plus(dec(n)) == dec(n));
    assert((seq!['+'] + dec(n)).skip(1) =~= dec(n));
}

/// Numbers with the same decimal notation are the same.
pub proof fn decimals_are_told_apart(a: int, b: int)
    requires
        a != b,
    ensures
        dec_int(a) != dec_int(b),
        dec_signed(a) != dec_signed(b),
{
    let x = if a < 0 {
        (-a) as nat
    } else {
        a as nat
    };
    let y = if b < 0 {
        (-b) as nat
    } else {
        b as nat
    };
    decimal_denotes(x);
    decimal_denotes(y);
    assert(is_digit(dec(x)[0]) && is_digit(dec(y)[0]));
    if dec_int(a) == dec_int(b) || dec_signed(a) == dec_signed(b) {
        let p = dec_int(a) == dec_int(b);
        let s = if p {
            dec_int(a)
        } else {
            dec_signed(a)
        };
        if a < 0 {
            assert(s[0] == '-');
            assert(s.skip(1) =~= dec(x));
            if b < 0 {
                assert((seq!['-'] + dec(y)).skip(1) =~= dec(y));
            }
        } else if b < 0 {
            assert((seq!['-'] + dec(y))[0] == '-');
        } else {
            assert((seq!['+'] + dec(x)).skip(1) =~= dec(x));
            assert((seq!['+'] + dec(y)).skip(1) =~= dec(y));
        }
    }
}

/// A text with a character that is neither a digit nor a leading plus sign is no number.
pub proof fn other_characters_are_no_number(s: Seq<char>, i: int, max: nat)
    requires
        0 <= i < s.len(),
        !('0' <= s[i] <= '9'),
        i > 0 || s[i] != '+',
    ensures
        parsed_unsigned(s, max) is None,
{
    let d = without_plus(s);
    if s[0] == '+' {
        assert(d[i - 1] == s[i]);
    }
}

/// The hexadecimal notation ends with the digit of what is left over by sixteen, and before that
/// has the notation of the rest.
pub proof fn hexadecimals_go_by_sixteen(n: u64, d: u64, r: String, before: String)
    requires
        0 < n < 0x0fff_ffff_ffff_ffff,
        d < 16,
        call_ensures(hex_u64, ((n * 16 + d) as u64,), r),
        call_ensures(hex_u64, (n,), before),
    ensures
        r@.drop_last() == before@,
        d < 10 ==> r@.last() as int == '0' as int + d,
        d >= 10 ==> r@.last() as int == 'a' as int + d - 10,
{
    let m = (n * 16 + d) as nat;
    assert(m / 16 == n && m % 16 == d) by (nonlinear_arith)
        requires
            m == n * 16 + d,
            d < 16,
    ;
    assert(hex_lower(m) == hex_lower(n as nat).push(hex_lower_char(d as nat)));
    assert(r@.drop_last() =~= before@);
}

} // verus!
