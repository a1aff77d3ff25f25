//! Textual encodings used at the service boundary: lowercase hex, decimal,
//! and base64 (standard with padding, and URL-safe without padding).
//!
//! All encoders and decoders are defined against spec-level grammars, so the
//! exact bytes-to-text relation is part of the library's contract.

use vstd::prelude::*;

use vstd::string::StringSliceAdditionalSpecFns;

verus! {

/// Character for one hex digit value (0 to 15), lowercase.
pub open spec fn hex_digit_char(n: int) -> char {
    if n == 0 { '0' } else if n == 1 { '1' } else if n == 2 { '2' } else if n == 3 { '3' }
    else if n == 4 { '4' } else if n == 5 { '5' } else if n == 6 { '6' } else if n == 7 { '7' }
    else if n == 8 { '8' } else if n == 9 { '9' } else if n == 10 { 'a' } else if n == 11 { 'b' }
    else if n == 12 { 'c' } else if n == 13 { 'd' } else if n == 14 { 'e' } else { 'f' }
}

/// Lowercase hex encoding of a byte string, two digits per byte.
pub open spec fn hex_of(data: Seq<u8>) -> Seq<char>
    decreases data.len(),
{
    if data.len() == 0 {
        Seq::empty()
    } else {
        seq![
            hex_digit_char(data.first() as int / 16),
            hex_digit_char((data.first() % 16) as int),
        ] + hex_of(data.drop_first())
    }
}

/// Relies on std's String::push: appends exactly the one character.
#[verifier::external_body]
pub fn push_char(s: &mut String, c: char)
    ensures
        final(s)@ == old(s)@.push(c),
{
    s.push(c);
}

/// Exec counterpart of `hex_digit_char`.
pub fn hex_digit(n: u8) -> (r: char)
    requires
        n < 16,
    ensures
        r == hex_digit_char(n as int),
{
    match n {
        0 => '0', 1 => '1', 2 => '2', 3 => '3',
        4 => '4', 5 => '5', 6 => '6', 7 => '7',
        8 => '8', 9 => '9', 10 => 'a', 11 => 'b',
        12 => 'c', 13 => 'd', 14 => 'e', _ => 'f',
    }
}

/// Lowercase hex encoding of a byte string.
pub fn to_hex(data: &[u8]) -> (r: String)
    ensures
        r@ == hex_of(data@),
{
    let mut r = String::new();
    assert(data@.skip(0) == data@);
    for i in 0..data.len()
        invariant
            r@ + hex_of(data@.skip(i as int)) == hex_of(data@),
            r@.len() == 2 * i,
    {
        let b = data[i];
        push_char(&mut r, hex_digit(b / 16));
        push_char(&mut r, hex_digit(b % 16));
        assert(data@.skip(i as int).drop_first() == data@.skip(i + 1));
        assert(r@ + hex_of(data@.skip(i + 1)) == hex_of(data@));
    }
    assert(hex_of(data@.skip(data@.len() as int)) == Seq::<char>::empty());
    assert(r@ == r@ + hex_of(data@.skip(data@.len() as int)));
    r
}

/// Decimal digits of a natural number, most significant first.
pub open spec fn dec_of(n: nat) -> Seq<char>
    decreases n,
{
    if n < 10 {
        seq![hex_digit_char(n as int)]
    } else {
        dec_of(n / 10) + seq![hex_digit_char((n % 10) as int)]
    }
}

/// Decimal rendering of an unsigned number.
pub fn u64_to_dec(n: u64) -> (r: String)
    ensures
        r@ == dec_of(n as nat),
{
    let mut digits: Vec<char> = Vec::new();
    let mut rest: u64 = n;
    while rest >= 10
        invariant
            dec_of(n as nat) == dec_of(rest as nat) + digits@.reverse(),
        decreases rest,
    {
        let ghost prefix = digits@;
        digits.push(hex_digit((rest % 10) as u8));
        proof {
            assert(digits@.reverse() =~= seq![hex_digit_char((rest % 10) as int)] + prefix.reverse());
            assert(dec_of(rest as nat) == dec_of((rest / 10) as nat) + seq![hex_digit_char((rest % 10) as int)]);
            assert(dec_of((rest / 10) as nat) + digits@.reverse() =~= dec_of(rest as nat) + prefix.reverse());
        }
        rest = rest / 10;
    }
    let mut r = String::new();
    push_char(&mut r, hex_digit((rest % 10) as u8));
    proof {
        assert(dec_of(rest as nat) == seq![hex_digit_char((rest % 10) as int)]);
        assert(r@ =~= dec_of(rest as nat));
    }
    let mut i: usize = digits.len();
    while i > 0
        invariant
            i <= digits@.len(),
            r@ == dec_of(rest as nat) + digits@.skip(i as int).reverse(),
        decreases i,
    {
        i = i - 1;
        let ghost before = digits@.skip(i as int + 1);
        push_char(&mut r, digits[i]);
        proof {
            assert(digits@.skip(i as int) =~= seq![digits@[i as int]] + before);
            assert(digits@.skip(i as int).reverse() =~= before.reverse().push(digits@[i as int]));
        }
    }
    proof {
        assert(digits@.skip(0) == digits@);
        assert(r@ == dec_of(rest as nat) + digits@.reverse());
    }
    r
}

/// Two encoded strings are equal only if the strings are: UTF-8 encoding
/// loses nothing.
pub proof fn lemma_utf8_injective(a: Seq<char>, b: Seq<char>)
    requires
        vstd::utf8::encode_utf8(a) == vstd::utf8::encode_utf8(b),
    ensures
        a == b,
{
    vstd::utf8::encode_utf8_decode_utf8(a);
    vstd::utf8::encode_utf8_decode_utf8(b);
}

/// Whether two byte slices hold the same bytes.
pub fn slice_eq(a: &[u8], b: &[u8]) -> (r: bool)
    ensures
        r == (a@ == b@),
{
    if a.len() != b.len() {
        return false;
    }
    for i in 0..a.len()
        invariant
            a@.len() == b@.len(),
            forall|k: int| 0 <= k < i ==> a@[k] == b@[k],
    {
        if a[i] != b[i] {
            return false;
        }
    }
    proof {
        assert(a@ =~= b@);
    }
    true
}

/// Whether two strings are equal.
pub fn str_eq(a: &str, b: &str) -> (r: bool)
    ensures
        r == (a@ == b@),
{
    let r = slice_eq(a.as_bytes(), b.as_bytes());
    proof {
        if a.spec_bytes() == b.spec_bytes() {
            lemma_utf8_injective(a@, b@);
        }
    }
    r
}

/// Value of one hex digit byte, either case; no value for other bytes.
pub open spec fn hex_val(b: u8) -> Option<int> {
    if 48 <= b <= 57 { Some((b - 48) as int) }
    else if 97 <= b <= 102 { Some((b - 97 + 10) as int) }
    else if 65 <= b <= 70 { Some((b - 65 + 10) as int) }
    else { None }
}

/// Strict hex decoding: an even number of digits, two per byte.
pub open spec fn hex_parse(s: Seq<u8>) -> Option<Seq<u8>>
    decreases s.len(),
{
    if s.len() == 0 {
        Some(Seq::empty())
    } else if s.len() == 1 {
        None
    } else {
        match (hex_val(s[0]), hex_val(s[1])) {
            (Some(hi), Some(lo)) => match hex_parse(s.skip(2)) {
                Some(rest) => Some(seq![(hi * 16 + lo) as u8] + rest),
                None => None,
            },
            _ => None,
        }
    }
}

/// Exec value of one hex digit byte.
fn hex_digit_val(b: u8) -> (r: Option<u8>)
    ensures
        match r {
            Some(v) => hex_val(b) == Some(v as int),
            None => hex_val(b) is None,
        },
{
    if 48 <= b && b <= 57 { Some(b - 48) }
    else if 97 <= b && b <= 102 { Some(b - 97 + 10) }
    else if 65 <= b && b <= 70 { Some(b - 65 + 10) }
    else { None }
}

/// Strict hex decoding of ASCII input; `None` exactly where the input is
/// not an even string of hex digits.
pub fn decode_hex(s: &[u8]) -> (r: Option<Vec<u8>>)
    ensures
        match r {
            Some(v) => hex_parse(s@) == Some(v@),
            None => hex_parse(s@) is None,
        },
{
    let n = s.len();
    if n % 2 != 0 {
        proof {
            lemma_hex_parse_odd(s@);
        }
        return None;
    }
    let mut out: Vec<u8> = Vec::new();
    let mut i: usize = 0;
    assert(s@.skip(0) == s@);
    while i < n
        invariant
            i <= n,
            n == s@.len(),
            n % 2 == 0,
            i % 2 == 0,
            hex_parse(s@) == parse_prepend(out@, hex_parse(s@.skip(i as int))),
        decreases n - i,
    {
        let ghost tail = s@.skip(i as int);
        proof {
            assert(tail[0] == s@[i as int]);
            assert(tail[1] == s@[i as int + 1]);
        }
        let hi = match hex_digit_val(s[i]) {
            Some(v) => v,
            None => { return None; },
        };
        let lo = match hex_digit_val(s[i + 1]) {
            Some(v) => v,
            None => { return None; },
        };
        let ghost out_before = out@;
        out.push(hi * 16 + lo);
        proof {
            assert(tail.skip(2) =~= s@.skip(i as int + 2));
            assert(out@ =~= out_before + seq![(hi * 16 + lo) as u8]);
        }
        i = i + 2;
    }
    proof {
        assert(s@.skip(n as int) =~= Seq::<u8>::empty());
        assert(out@ + Seq::<u8>::empty() =~= out@);
    }
    Some(out)
}

/// An odd number of digits never decodes.
proof fn lemma_hex_parse_odd(s: Seq<u8>)
    requires
        s.len() % 2 == 1,
    ensures
        hex_parse(s) is None,
    decreases s.len(),
{
    if s.len() > 1 {
        lemma_hex_parse_odd(s.skip(2));
    }
}

/// ASCII bytes read as characters, one to one.
pub open spec fn ascii_chars_of(s: Seq<u8>) -> Seq<char> {
    s.map(|i: int, b: u8| b as char)
}

/// Base64 digit for a 6-bit value, as an ASCII byte of the standard alphabet.
pub open spec fn b64_byte(n: int) -> u8 {
    if n < 26 { (65 + n) as u8 }          // 'A'..'Z'
    else if n < 52 { (97 + (n - 26)) as u8 }  // 'a'..'z'
    else if n < 62 { (48 + (n - 52)) as u8 }  // '0'..'9'
    else if n == 62 { 43u8 }              // '+'
    else { 47u8 }                          // '/'
}

/// Base64 digit of the URL-safe alphabet.
pub open spec fn b64url_byte(n: int) -> u8 {
    if n == 62 { 45u8 }                    // '-'
    else if n == 63 { 95u8 }               // '_'
    else { b64_byte(n) }
}

/// Standard base64 encoding with padding, as ASCII bytes.
pub open spec fn b64_of(data: Seq<u8>) -> Seq<u8>
    decreases data.len(),
{
    if data.len() == 0 {
        Seq::empty()
    } else if data.len() == 1 {
        let b0 = data[0] as int;
        seq![b64_byte(b0 / 4), b64_byte(b0 % 4 * 16), 61u8, 61u8]
    } else if data.len() == 2 {
        let b0 = data[0] as int;
        let b1 = data[1] as int;
        seq![b64_byte(b0 / 4), b64_byte(b0 % 4 * 16 + b1 / 16), b64_byte(b1 % 16 * 4), 61u8]
    } else {
        let b0 = data[0] as int;
        let b1 = data[1] as int;
        let b2 = data[2] as int;
        seq![
            b64_byte(b0 / 4),
            b64_byte(b0 % 4 * 16 + b1 / 16),
            b64_byte(b1 % 16 * 4 + b2 / 64),
            b64_byte(b2 % 64),
        ] + b64_of(data.skip(3))
    }
}

/// URL-safe base64 encoding without padding, as ASCII bytes.
pub open spec fn b64url_of(data: Seq<u8>) -> Seq<u8>
    decreases data.len(),
{
    if data.len() == 0 {
        Seq::empty()
    } else if data.len() == 1 {
        let b0 = data[0] as int;
        seq![b64url_byte(b0 / 4), b64url_byte(b0 % 4 * 16)]
    } else if data.len() == 2 {
        let b0 = data[0] as int;
        let b1 = data[1] as int;
        seq![b64url_byte(b0 / 4), b64url_byte(b0 % 4 * 16 + b1 / 16), b64url_byte(b1 % 16 * 4)]
    } else {
        let b0 = data[0] as int;
        let b1 = data[1] as int;
        let b2 = data[2] as int;
        seq![
            b64url_byte(b0 / 4),
            b64url_byte(b0 % 4 * 16 + b1 / 16),
            b64url_byte(b1 % 16 * 4 + b2 / 64),
            b64url_byte(b2 % 64),
        ] + b64url_of(data.skip(3))
    }
}

/// Value of a standard-alphabet base64 digit; no value for other bytes.
pub open spec fn b64_val(b: u8) -> Option<int> {
    if 65 <= b <= 90 { Some((b - 65) as int) }
    else if 97 <= b <= 122 { Some((b - 97 + 26) as int) }
    else if 48 <= b <= 57 { Some((b - 48 + 52) as int) }
    else if b == 43 { Some(62int) }
    else if b == 47 { Some(63int) }
    else { None }
}

/// Strict base64 decoding: padded, canonical, groups of four digits.
pub open spec fn b64_parse(s: Seq<u8>) -> Option<Seq<u8>>
    decreases s.len(),
{
    if s.len() == 0 {
        Some(Seq::empty())
    } else if s.len() < 4 || s.len() % 4 != 0 {
        None
    } else {
        let v0 = b64_val(s[0]);
        let v1 = b64_val(s[1]);
        if v0 is None || v1 is None {
            None
        } else if s[2] == 61 {
            // "xx==": final block of one byte, low bits must be zero.
            if s.len() == 4 && s[3] == 61 && v1->0 % 16 == 0 {
                Some(seq![(v0->0 * 4 + v1->0 / 16) as u8])
            } else {
                None
            }
        } else if s[3] == 61 {
            // "xxx=": final block of two bytes, low bits must be zero.
            let v2 = b64_val(s[2]);
            if s.len() == 4 && v2 is Some && v2->0 % 4 == 0 {
                Some(seq![
                    (v0->0 * 4 + v1->0 / 16) as u8,
                    (v1->0 % 16 * 16 + v2->0 / 4) as u8,
                ])
            } else {
                None
            }
        } else {
            let v2 = b64_val(s[2]);
            let v3 = b64_val(s[3]);
            if v2 is Some && v3 is Some {
                match b64_parse(s.skip(4)) {
                    Some(rest) => Some(
                        seq![
                            (v0->0 * 4 + v1->0 / 16) as u8,
                            (v1->0 % 16 * 16 + v2->0 / 4) as u8,
                            (v2->0 % 4 * 64 + v3->0) as u8,
                        ] + rest,
                    ),
                    None => None,
                }
            } else {
                None
            }
        }
    }
}

/// A decoded prefix joined with the outcome of decoding the rest.
pub open spec fn parse_prepend(prefix: Seq<u8>, rest: Option<Seq<u8>>) -> Option<Seq<u8>> {
    match rest {
        Some(d) => Some(prefix + d),
        None => None,
    }
}

/// Exec value of a standard-alphabet base64 digit.
fn b64_digit_val(b: u8) -> (r: Option<u8>)
    ensures
        match r {
            Some(v) => b64_val(b) == Some(v as int),
            None => b64_val(b) is None,
        },
{
    if 65 <= b && b <= 90 { Some(b - 65) }
    else if 97 <= b && b <= 122 { Some(b - 97 + 26) }
    else if 48 <= b && b <= 57 { Some(b - 48 + 52) }
    else if b == 43 { Some(62) }
    else if b == 47 { Some(63) }
    else { None }
}

/// Strict base64 decoding of ASCII input; `None` exactly where the input is
/// not a canonical padded base64 text.
pub fn decode_base64(s: &[u8]) -> (r: Option<Vec<u8>>)
    ensures
        match r {
            Some(v) => b64_parse(s@) == Some(v@),
            None => b64_parse(s@) is None,
        },
{
    let n = s.len();
    if n % 4 != 0 {
        return None;
    }
    let mut out: Vec<u8> = Vec::new();
    let mut i: usize = 0;
    assert(s@.skip(0) == s@);
    while i < n
        invariant
            i <= n,
            n == s@.len(),
            n % 4 == 0,
            i % 4 == 0,
            b64_parse(s@) == parse_prepend(out@, b64_parse(s@.skip(i as int))),
        decreases n - i,
    {
        let ghost tail = s@.skip(i as int);
        proof {
            assert(tail.len() == n - i);
            assert(tail.len() >= 4 && tail.len() % 4 == 0);
            assert(tail[0] == s@[i as int]);
            assert(tail[1] == s@[i as int + 1]);
            assert(tail[2] == s@[i as int + 2]);
            assert(tail[3] == s@[i as int + 3]);
        }
        let c0 = s[i];
        let c1 = s[i + 1];
        let c2 = s[i + 2];
        let c3 = s[i + 3];
        let v0 = match b64_digit_val(c0) {
            Some(v) => v,
            None => { return None; },
        };
        let v1 = match b64_digit_val(c1) {
            Some(v) => v,
            None => { return None; },
        };
        if c2 == 61 {
            if i + 4 == n && c3 == 61 && v1 % 16 == 0 {
                out.push(v0 * 4 + v1 / 16);
                proof {
                    assert(b64_parse(tail) == Some(seq![(v0 * 4 + v1 / 16) as u8]));
                }
                return Some(out);
            } else {
                proof {
                    assert(!(tail.len() == 4 && tail[3] == 61 && b64_val(tail[1])->0 % 16 == 0));
                    assert(b64_parse(tail) is None);
                }
                return None;
            }
        }
        if c3 == 61 {
            let v2 = match b64_digit_val(c2) {
                Some(v) => v,
                None => { return None; },
            };
            if i + 4 == n && v2 % 4 == 0 {
                out.push(v0 * 4 + v1 / 16);
                out.push(v1 % 16 * 16 + v2 / 4);
                proof {
                    assert(b64_parse(tail) == Some(seq![
                        (v0 * 4 + v1 / 16) as u8,
                        (v1 % 16 * 16 + v2 / 4) as u8,
                    ]));
                }
                return Some(out);
            } else {
                proof {
                    assert(b64_parse(tail) is None);
                }
                return None;
            }
        }
        let v2 = match b64_digit_val(c2) {
            Some(v) => v,
            None => { return None; },
        };
        let v3 = match b64_digit_val(c3) {
            Some(v) => v,
            None => { return None; },
        };
        let ghost out_before = out@;
        out.push(v0 * 4 + v1 / 16);
        out.push(v1 % 16 * 16 + v2 / 4);
        out.push(v2 % 4 * 64 + v3);
        proof {
            assert(tail.skip(4) =~= s@.skip(i as int + 4));
            assert(out@ =~= out_before + seq![
                (v0 * 4 + v1 / 16) as u8,
                (v1 % 16 * 16 + v2 / 4) as u8,
                (v2 % 4 * 64 + v3) as u8,
            ]);
        }
        i = i + 4;
    }
    proof {
        assert(s@.skip(n as int) =~= Seq::<u8>::empty());
        assert(b64_parse(s@.skip(n as int)) == Some(Seq::<u8>::empty()));
        assert(out@ + Seq::<u8>::empty() =~= out@);
    }
    Some(out)
}

/// Value of a URL-safe-alphabet base64 digit; no value for other bytes.
pub open spec fn b64url_val(b: u8) -> Option<int> {
    if b == 45 { Some(62int) }
    else if b == 95 { Some(63int) }
    else if b == 43 || b == 47 { None }
    else { b64_val(b) }
}

/// Strict URL-safe base64 decoding: no padding, canonical low bits.
pub open spec fn b64url_parse(s: Seq<u8>) -> Option<Seq<u8>>
    decreases s.len(),
{
    if s.len() == 0 {
        Some(Seq::empty())
    } else if s.len() == 1 {
        None
    } else if s.len() == 2 {
        match (b64url_val(s[0]), b64url_val(s[1])) {
            (Some(v0), Some(v1)) => if v1 % 16 == 0 {
                Some(seq![(v0 * 4 + v1 / 16) as u8])
            } else {
                None
            },
            _ => None,
        }
    } else if s.len() == 3 {
        match (b64url_val(s[0]), b64url_val(s[1]), b64url_val(s[2])) {
            (Some(v0), Some(v1), Some(v2)) => if v2 % 4 == 0 {
                Some(seq![(v0 * 4 + v1 / 16) as u8, (v1 % 16 * 16 + v2 / 4) as u8])
            } else {
                None
            },
            _ => None,
        }
    } else {
        match (b64url_val(s[0]), b64url_val(s[1]), b64url_val(s[2]), b64url_val(s[3])) {
            (Some(v0), Some(v1), Some(v2), Some(v3)) => match b64url_parse(s.skip(4)) {
                Some(rest) => Some(
                    seq![
                        (v0 * 4 + v1 / 16) as u8,
                        (v1 % 16 * 16 + v2 / 4) as u8,
                        (v2 % 4 * 64 + v3) as u8,
                    ] + rest,
                ),
                None => None,
            },
            _ => None,
        }
    }
}

/// Exec value of a URL-safe-alphabet base64 digit.
fn b64url_digit_val(b: u8) -> (r: Option<u8>)
    ensures
        match r {
            Some(v) => b64url_val(b) == Some(v as int),
            None => b64url_val(b) is None,
        },
{
    if b == 45 { Some(62) }
    else if b == 95 { Some(63) }
    else if b == 43 || b == 47 { None }
    else { b64_digit_val(b) }
}

/// Strict URL-safe base64 decoding of ASCII input; `None` exactly where
/// the input is not a canonical unpadded base64 text.
pub fn decode_base64url(s: &[u8]) -> (r: Option<Vec<u8>>)
    ensures
        match r {
            Some(v) => b64url_parse(s@) == Some(v@),
            None => b64url_parse(s@) is None,
        },
{
    let n = s.len();
    let mut out: Vec<u8> = Vec::new();
    let mut i: usize = 0;
    assert(s@.skip(0) == s@);
    while n - i >= 4
        invariant
            i <= n,
            n == s@.len(),
            b64url_parse(s@) == parse_prepend(out@, b64url_parse(s@.skip(i as int))),
        decreases n - i,
    {
        let ghost tail = s@.skip(i as int);
        proof {
            assert(tail[0] == s@[i as int]);
            assert(tail[1] == s@[i as int + 1]);
            assert(tail[2] == s@[i as int + 2]);
            assert(tail[3] == s@[i as int + 3]);
        }
        let v0 = match b64url_digit_val(s[i]) {
            Some(v) => v,
            None => { return None; },
        };
        let v1 = match b64url_digit_val(s[i + 1]) {
            Some(v) => v,
            None => { return None; },
        };
        let v2 = match b64url_digit_val(s[i + 2]) {
            Some(v) => v,
            None => { return None; },
        };
        let v3 = match b64url_digit_val(s[i + 3]) {
            Some(v) => v,
            None => { return None; },
        };
        let ghost out_before = out@;
        out.push(v0 * 4 + v1 / 16);
        out.push(v1 % 16 * 16 + v2 / 4);
        out.push(v2 % 4 * 64 + v3);
        proof {
            assert(tail.skip(4) =~= s@.skip(i as int + 4));
            assert(out@ =~= out_before + seq![
                (v0 * 4 + v1 / 16) as u8,
                (v1 % 16 * 16 + v2 / 4) as u8,
                (v2 % 4 * 64 + v3) as u8,
            ]);
        }
        i = i + 4;
    }
    let ghost tail = s@.skip(i as int);
    if i == n {
        proof {
            assert(tail =~= Seq::<u8>::empty());
            assert(out@ + Seq::<u8>::empty() =~= out@);
        }
        return Some(out);
    }
    if n - i == 1 {
        proof {
            assert(tail.len() == 1);
        }
        return None;
    }
    proof {
        assert(tail[0] == s@[i as int]);
        assert(tail[1] == s@[i as int + 1]);
    }
    let v0 = match b64url_digit_val(s[i]) {
        Some(v) => v,
        None => { return None; },
    };
    let v1 = match b64url_digit_val(s[i + 1]) {
        Some(v) => v,
        None => { return None; },
    };
    if n - i == 2 {
        if v1 % 16 == 0 {
            out.push(v0 * 4 + v1 / 16);
            proof {
                assert(b64url_parse(tail) == Some(seq![(v0 * 4 + v1 / 16) as u8]));
            }
            return Some(out);
        } else {
            return None;
        }
    }
    proof {
        assert(tail.len() == 3);
        assert(tail[2] == s@[i as int + 2]);
    }
    let v2 = match b64url_digit_val(s[i + 2]) {
        Some(v) => v,
        None => { return None; },
    };
    if v2 % 4 == 0 {
        out.push(v0 * 4 + v1 / 16);
        out.push(v1 % 16 * 16 + v2 / 4);
        proof {
            assert(b64url_parse(tail) == Some(seq![
                (v0 * 4 + v1 / 16) as u8,
                (v1 % 16 * 16 + v2 / 4) as u8,
            ]));
        }
        return Some(out);
    }
    None
}

/// A URL-safe base64 digit decodes back to itself.
proof fn lemma_b64url_digit_roundtrip(b: u8, v: int)
    requires
        b64url_val(b) == Some(v),
    ensures
        0 <= v < 64,
        b64url_byte(v) == b,
{
}

/// What the strict URL-safe decoder accepts is exactly an encoder output:
/// decoding then encoding gives the input back.
#[verifier::rlimit(100)]
#[verifier::spinoff_prover]
pub proof fn lemma_b64url_roundtrip(s: Seq<u8>, v: Seq<u8>)
    requires
        b64url_parse(s) == Some(v),
    ensures
        s == b64url_of(v),
    decreases s.len(),
{
    if s.len() == 0 {
        assert(s =~= b64url_of(v));
    } else if s.len() == 2 {
        let v0 = b64url_val(s[0])->0;
        let v1 = b64url_val(s[1])->0;
        lemma_b64url_digit_roundtrip(s[0], v0);
        lemma_b64url_digit_roundtrip(s[1], v1);
        assert(v =~= seq![(v0 * 4 + v1 / 16) as u8]);
        let b0 = (v0 * 4 + v1 / 16) as int;
        assert(b0 / 4 == v0 && b0 % 4 * 16 == v1);
        assert(s =~= b64url_of(v));
    } else if s.len() == 3 {
        let v0 = b64url_val(s[0])->0;
        let v1 = b64url_val(s[1])->0;
        let v2 = b64url_val(s[2])->0;
        lemma_b64url_digit_roundtrip(s[0], v0);
        lemma_b64url_digit_roundtrip(s[1], v1);
        lemma_b64url_digit_roundtrip(s[2], v2);
        assert(v =~= seq![(v0 * 4 + v1 / 16) as u8, (v1 % 16 * 16 + v2 / 4) as u8]);
        let b0 = (v0 * 4 + v1 / 16) as int;
        let b1 = (v1 % 16 * 16 + v2 / 4) as int;
        assert(b0 / 4 == v0 && b0 % 4 * 16 + b1 / 16 == v1 && b1 % 16 * 4 == v2);
        assert(s =~= b64url_of(v));
    } else {
        let v0 = b64url_val(s[0])->0;
        let v1 = b64url_val(s[1])->0;
        let v2 = b64url_val(s[2])->0;
        let v3 = b64url_val(s[3])->0;
        lemma_b64url_digit_roundtrip(s[0], v0);
        lemma_b64url_digit_roundtrip(s[1], v1);
        lemma_b64url_digit_roundtrip(s[2], v2);
        lemma_b64url_digit_roundtrip(s[3], v3);
        let rest = b64url_parse(s.skip(4))->0;
        lemma_b64url_roundtrip(s.skip(4), rest);
        let head = seq![
            (v0 * 4 + v1 / 16) as u8,
            (v1 % 16 * 16 + v2 / 4) as u8,
            (v2 % 4 * 64 + v3) as u8,
        ];
        assert(v =~= head + rest);
        let b0 = head[0] as int;
        let b1 = head[1] as int;
        let b2 = head[2] as int;
        assert(b0 / 4 == v0 && b0 % 4 * 16 + b1 / 16 == v1 && b1 % 16 * 4 + b2 / 64 == v2
            && b2 % 64 == v3);
        assert(v.len() >= 3);
        assert(v[0] == head[0] && v[1] == head[1] && v[2] == head[2]);
        assert(v.skip(3) =~= rest);
        assert(s =~= b64url_of(v));
    }
}

/// Exec base64 digit of the standard alphabet.
fn b64_digit(n: u8) -> (r: u8)
    requires
        n < 64,
    ensures
        r == b64_byte(n as int),
        r < 128,
{
    if n < 26 { 65 + n }
    else if n < 52 { 97 + (n - 26) }
    else if n < 62 { 48 + (n - 52) }
    else if n == 62 { 43 }
    else { 47 }
}

/// Exec base64 digit of the URL-safe alphabet.
fn b64url_digit(n: u8) -> (r: u8)
    requires
        n < 64,
    ensures
        r == b64url_byte(n as int),
        r < 128,
{
    if n == 62 { 45 }
    else if n == 63 { 95 }
    else { b64_digit(n) }
}

/// Standard base64 encoding with padding, as ASCII bytes.
pub fn encode_base64(data: &[u8]) -> (r: Vec<u8>)
    ensures
        r@ == b64_of(data@),
{
    let mut r: Vec<u8> = Vec::new();
    let n = data.len();
    let mut i: usize = 0;
    assert(data@.skip(0) == data@);
    while n - i >= 3
        invariant
            i <= n,
            n == data@.len(),
            i % 3 == 0,
            b64_of(data@) == r@ + b64_of(data@.skip(i as int)),
        decreases n - i,
    {
        let ghost tail = data@.skip(i as int);
        let b0 = data[i];
        let b1 = data[i + 1];
        let b2 = data[i + 2];
        r.push(b64_digit(b0 / 4));
        r.push(b64_digit(b0 % 4 * 16 + b1 / 16));
        r.push(b64_digit(b1 % 16 * 4 + b2 / 64));
        r.push(b64_digit(b2 % 64));
        proof {
            assert(tail.len() >= 3);
            assert(tail[0] == b0 && tail[1] == b1 && tail[2] == b2);
            assert(tail.skip(3) =~= data@.skip(i as int + 3));
        }
        i = i + 3;
    }
    let ghost tail = data@.skip(i as int);
    if n - i == 1 {
        let b0 = data[i];
        r.push(b64_digit(b0 / 4));
        r.push(b64_digit(b0 % 4 * 16));
        r.push(61);
        r.push(61);
        proof {
            assert(tail.len() == 1 && tail[0] == data@[i as int]);
        }
    } else if n - i == 2 {
        let b0 = data[i];
        let b1 = data[i + 1];
        r.push(b64_digit(b0 / 4));
        r.push(b64_digit(b0 % 4 * 16 + b1 / 16));
        r.push(b64_digit(b1 % 16 * 4));
        r.push(61);
        proof {
            assert(tail.len() == 2 && tail[0] == data@[i as int] && tail[1] == data@[i as int + 1]);
        }
    } else {
        proof {
            assert(tail.len() == 0);
            assert(b64_of(tail) =~= Seq::<u8>::empty());
        }
    }
    proof {
        assert(r@ =~= b64_of(data@));
    }
    r
}

/// URL-safe base64 encoding without padding, as ASCII bytes.
pub fn encode_base64url(data: &[u8]) -> (r: Vec<u8>)
    ensures
        r@ == b64url_of(data@),
        forall|i: int| 0 <= i < r@.len() ==> r@[i] < 128,
{
    let mut r: Vec<u8> = Vec::new();
    let n = data.len();
    let mut i: usize = 0;
    assert(data@.skip(0) == data@);
    while n - i >= 3
        invariant
            i <= n,
            n == data@.len(),
            i % 3 == 0,
            b64url_of(data@) == r@ + b64url_of(data@.skip(i as int)),
            forall|k: int| 0 <= k < r@.len() ==> r@[k] < 128,
        decreases n - i,
    {
        let ghost tail = data@.skip(i as int);
        let b0 = data[i];
        let b1 = data[i + 1];
        let b2 = data[i + 2];
        r.push(b64url_digit(b0 / 4));
        r.push(b64url_digit(b0 % 4 * 16 + b1 / 16));
        r.push(b64url_digit(b1 % 16 * 4 + b2 / 64));
        r.push(b64url_digit(b2 % 64));
        proof {
            assert(tail.len() >= 3);
            assert(tail[0] == b0 && tail[1] == b1 && tail[2] == b2);
            assert(tail.skip(3) =~= data@.skip(i as int + 3));
        }
        i = i + 3;
    }
    let ghost tail = data@.skip(i as int);
    if n - i == 1 {
        let b0 = data[i];
        r.push(b64url_digit(b0 / 4));
        r.push(b64url_digit(b0 % 4 * 16));
        proof {
            assert(tail.len() == 1 && tail[0] == data@[i as int]);
        }
    } else if n - i == 2 {
        let b0 = data[i];
        let b1 = data[i + 1];
        r.push(b64url_digit(b0 / 4));
        r.push(b64url_digit(b0 % 4 * 16 + b1 / 16));
        r.push(b64url_digit(b1 % 16 * 4));
        proof {
            assert(tail.len() == 2 && tail[0] == data@[i as int] && tail[1] == data@[i as int + 1]);
        }
    } else {
        proof {
            assert(tail.len() == 0);
            assert(b64url_of(tail) =~= Seq::<u8>::empty());
        }
    }
    proof {
        assert(r@ =~= b64url_of(data@));
    }
    r
}

/// ASCII byte of one hex digit value, lowercase.
pub open spec fn hex_byte(n: int) -> u8 {
    if n < 10 { (48 + n) as u8 } else { (87 + n) as u8 }
}

/// Lowercase hex encoding of a byte string, as ASCII bytes.
pub open spec fn hex_bytes_of(data: Seq<u8>) -> Seq<u8>
    decreases data.len(),
{
    if data.len() == 0 {
        Seq::empty()
    } else {
        seq![hex_byte(data.first() as int / 16), hex_byte((data.first() % 16) as int)]
            + hex_bytes_of(data.drop_first())
    }
}

/// Appends the lowercase hex encoding of a byte string.
pub fn push_hex_bytes(out: &mut Vec<u8>, data: &Vec<u8>)
    ensures
        final(out)@ == old(out)@ + hex_bytes_of(data@),
{
    let ghost base = out@;
    assert(data@.skip(0) == data@);
    for i in 0..data.len()
        invariant
            out@ + hex_bytes_of(data@.skip(i as int)) == base + hex_bytes_of(data@),
    {
        let b = data[i];
        let hi = b / 16;
        let lo = b % 16;
        out.push(if hi < 10 { 48 + hi } else { 87 + hi });
        out.push(if lo < 10 { 48 + lo } else { 87 + lo });
        proof {
            assert(data@.skip(i as int).drop_first() == data@.skip(i + 1));
            assert(out@ + hex_bytes_of(data@.skip(i + 1)) =~= base + hex_bytes_of(data@));
        }
    }
    proof {
        assert(hex_bytes_of(data@.skip(data@.len() as int)) == Seq::<u8>::empty());
        assert(out@ =~= out@ + hex_bytes_of(data@.skip(data@.len() as int)));
    }
}

/// Decimal digits of a natural number, as ASCII bytes.
pub open spec fn dec_bytes_of(n: nat) -> Seq<u8>
    decreases n,
{
    if n < 10 {
        seq![hex_byte(n as int)]
    } else {
        dec_bytes_of(n / 10) + seq![hex_byte((n % 10) as int)]
    }
}

/// Appends the decimal rendering of an unsigned number.
pub fn push_dec_bytes(out: &mut Vec<u8>, n: u64)
    ensures
        final(out)@ == old(out)@ + dec_bytes_of(n as nat),
{
    let ghost base = out@;
    let mut digits: Vec<u8> = Vec::new();
    let mut rest: u64 = n;
    while rest >= 10
        invariant
            dec_bytes_of(n as nat) == dec_bytes_of(rest as nat) + digits@.reverse(),
        decreases rest,
    {
        let ghost prefix = digits@;
        let d = (rest % 10) as u8;
        digits.push(48 + d);
        proof {
            assert(digits@.reverse() =~= seq![hex_byte((rest % 10) as int)] + prefix.reverse());
            assert(dec_bytes_of(rest as nat) == dec_bytes_of((rest / 10) as nat)
                + seq![hex_byte((rest % 10) as int)]);
            assert(dec_bytes_of((rest / 10) as nat) + digits@.reverse()
                =~= dec_bytes_of(rest as nat) + prefix.reverse());
        }
        rest = rest / 10;
    }
    out.push(48 + (rest % 10) as u8);
    proof {
        assert(dec_bytes_of(rest as nat) == seq![hex_byte((rest % 10) as int)]);
        assert(out@ =~= base + dec_bytes_of(rest as nat));
    }
    let mut i: usize = digits.len();
    while i > 0
        invariant
            i <= digits@.len(),
            out@ == base + dec_bytes_of(rest as nat) + digits@.skip(i as int).reverse(),
        decreases i,
    {
        i = i - 1;
        let ghost before = digits@.skip(i as int + 1);
        out.push(digits[i]);
        proof {
            assert(digits@.skip(i as int) =~= seq![digits@[i as int]] + before);
            assert(digits@.skip(i as int).reverse() =~= before.reverse().push(digits@[i as int]));
        }
    }
    proof {
        assert(digits@.skip(0) == digits@);
        assert(out@ =~= base + (dec_bytes_of(n as nat)));
    }
}

/// Appends the UTF-8 bytes of a string.
pub fn push_str_bytes(out: &mut Vec<u8>, s: &str)
    ensures
        final(out)@ == old(out)@ + s.spec_bytes(),
{
    let b = s.as_bytes();
    let ghost base = out@;
    for i in 0..b.len()
        invariant
            out@ =~= base + b@.take(i as int),
    {
        out.push(b[i]);
        proof {
            assert(b@.take(i + 1) =~= b@.take(i as int).push(b@[i as int]));
        }
    }
    proof {
        assert(b@.take(b@.len() as int) == b@);
    }
}

/// JSON escape of one byte of a string: quotes and backslashes get a
/// backslash, control bytes a unicode escape, everything else passes.
pub open spec fn json_esc_byte(b: u8) -> Seq<u8> {
    if b == 34 {
        seq![92u8, 34u8]
    } else if b == 92 {
        seq![92u8, 92u8]
    } else if b < 32 {
        seq![92u8, 117u8, 48u8, 48u8, hex_byte(b as int / 16), hex_byte((b % 16) as int)]
    } else {
        seq![b]
    }
}

/// JSON escape of a whole string body.
pub open spec fn json_escaped(s: Seq<u8>) -> Seq<u8>
    decreases s.len(),
{
    if s.len() == 0 {
        Seq::empty()
    } else {
        json_esc_byte(s.first()) + json_escaped(s.drop_first())
    }
}

/// A JSON string token: the escaped body in double quotes.
pub open spec fn json_string_of(s: Seq<u8>) -> Seq<u8> {
    seq![34u8] + json_escaped(s) + seq![34u8]
}

/// Appends a JSON string token holding the UTF-8 bytes of `s`.
pub fn push_json_string(out: &mut Vec<u8>, s: &str)
    ensures
        final(out)@ == old(out)@ + json_string_of(s.spec_bytes()),
{
    let ghost base = out@;
    out.push(34);
    let b = s.as_bytes();
    assert(b@.skip(0) == b@);
    for i in 0..b.len()
        invariant
            out@ + json_escaped(b@.skip(i as int)) == base + seq![34u8] + json_escaped(b@),
    {
        let c = b[i];
        if c == 34 {
            out.push(92);
            out.push(34);
        } else if c == 92 {
            out.push(92);
            out.push(92);
        } else if c < 32 {
            out.push(92);
            out.push(117);
            out.push(48);
            out.push(48);
            let hi = c / 16;
            let lo = c % 16;
            out.push(if hi < 10 { 48 + hi } else { 87 + hi });
            out.push(if lo < 10 { 48 + lo } else { 87 + lo });
        } else {
            out.push(c);
        }
        proof {
            assert(b@.skip(i as int).drop_first() == b@.skip(i + 1));
            assert(b@.skip(i as int).first() == b@[i as int]);
            assert(out@ + json_escaped(b@.skip(i + 1)) =~= base + seq![34u8] + json_escaped(b@));
        }
    }
    proof {
        assert(json_escaped(b@.skip(b@.len() as int)) == Seq::<u8>::empty());
        assert(out@ =~= base + seq![34u8] + json_escaped(b@));
    }
    out.push(34);
    proof {
        assert(out@ =~= base + json_string_of(s.spec_bytes()));
    }
}

/// The bytes of an ASCII string are its characters, one to one.
pub proof fn lemma_ascii_lit(s: &str)
    requires
        vstd::utf8::is_ascii_chars(s@),
    ensures
        s.spec_bytes().len() == s@.len(),
        forall|i: int| 0 <= i < s@.len() ==> #[trigger] s.spec_bytes()[i] == s@[i] as u8,
{
    vstd::utf8::is_ascii_chars_encode_utf8(s@);
}

/// Whether a byte is a decimal digit.
pub open spec fn is_dec_digit(b: u8) -> bool {
    48 <= b <= 57
}

/// Value of a run of decimal digits, most significant first.
pub open spec fn digits_val(s: Seq<u8>) -> nat
    decreases s.len(),
{
    if s.len() == 0 {
        0
    } else {
        digits_val(s.drop_last()) * 10 + (if s.last() >= 48 { (s.last() - 48) as nat } else { 0 })
    }
}

/// The decimal rendering of a number consists of digits, is nonempty, and
/// reads back as that number.
pub proof fn lemma_dec_bytes_digits(n: nat)
    ensures
        dec_bytes_of(n).len() >= 1,
        forall|i: int| 0 <= i < dec_bytes_of(n).len() ==> is_dec_digit(#[trigger] dec_bytes_of(n)[i]),
        digits_val(dec_bytes_of(n)) == n,
    decreases n,
{
    if n < 10 {
        assert(hex_byte(n as int) == 48 + n);
        assert(dec_bytes_of(n) =~= seq![hex_byte(n as int)]);
        assert(dec_bytes_of(n).drop_last() =~= Seq::<u8>::empty());
        assert(dec_bytes_of(n).last() == 48 + n);
        assert(digits_val(Seq::<u8>::empty()) == 0);
        assert(digits_val(dec_bytes_of(n)) == digits_val(dec_bytes_of(n).drop_last()) * 10
            + (dec_bytes_of(n).last() - 48));
    } else {
        lemma_dec_bytes_digits(n / 10);
        assert(hex_byte((n % 10) as int) == 48 + n % 10);
        assert(dec_bytes_of(n) =~= dec_bytes_of(n / 10) + seq![hex_byte((n % 10) as int)]);
        assert(dec_bytes_of(n).drop_last() =~= dec_bytes_of(n / 10));
        assert(dec_bytes_of(n).last() == 48 + n % 10);
        assert(digits_val(dec_bytes_of(n)) == (n / 10) * 10 + n % 10);
    }
}

/// A digit run's value only grows as the run extends.
pub proof fn lemma_digits_val_prefix(s: Seq<u8>, k: int)
    requires
        0 <= k <= s.len(),
    ensures
        digits_val(s.take(k)) <= digits_val(s),
    decreases s.len(),
{
    if k < s.len() {
        assert(s.drop_last().take(k) =~= s.take(k));
        lemma_digits_val_prefix(s.drop_last(), k);
    } else {
        assert(s.take(k) =~= s);
    }
}

/// First position at or after `pos` that holds no decimal digit.
pub open spec fn digit_run_end(s: Seq<u8>, pos: int) -> int
    decreases s.len() - pos,
{
    if !(0 <= pos < s.len()) {
        pos
    } else if !is_dec_digit(s[pos]) {
        pos
    } else {
        digit_run_end(s, pos + 1)
    }
}

/// The end of a digit run lies between its start and the string's end.
pub proof fn lemma_digit_run_end_bounds(s: Seq<u8>, pos: int)
    requires
        0 <= pos <= s.len(),
    ensures
        pos <= digit_run_end(s, pos) <= s.len(),
    decreases s.len() - pos,
{
    if pos < s.len() && is_dec_digit(s[pos]) {
        lemma_digit_run_end_bounds(s, pos + 1);
    }
}

/// Walking over digits does not move the end of the run.
pub proof fn lemma_digit_run_end_step(s: Seq<u8>, pos: int, i: int)
    requires
        0 <= pos <= i <= s.len(),
        forall|k: int| pos <= k < i ==> is_dec_digit(#[trigger] s[k]),
    ensures
        digit_run_end(s, pos) == digit_run_end(s, i),
    decreases i - pos,
{
    if pos < i {
        lemma_digit_run_end_step(s, pos + 1, i);
    }
}

/// Hex decoding undoes hex encoding.
pub proof fn lemma_hex_encode_parse(v: Seq<u8>)
    ensures
        hex_parse(hex_bytes_of(v)) == Some(v),
    decreases v.len(),
{
    if v.len() == 0 {
        assert(hex_bytes_of(v) =~= Seq::<u8>::empty());
        assert(hex_parse(hex_bytes_of(v)) == Some(Seq::<u8>::empty()));
        assert(Seq::<u8>::empty() =~= v);
    } else {
        let b = v.first() as int;
        let e = hex_bytes_of(v);
        assert(e =~= seq![hex_byte(b / 16), hex_byte(b % 16)] + hex_bytes_of(v.drop_first()));
        assert(e.len() >= 2);
        assert(e[0] == hex_byte(b / 16) && e[1] == hex_byte(b % 16));
        assert(hex_val(hex_byte(b / 16)) == Some(b / 16));
        assert(hex_val(hex_byte(b % 16)) == Some(b % 16));
        assert(e.skip(2) =~= hex_bytes_of(v.drop_first()));
        lemma_hex_encode_parse(v.drop_first());
        assert(b / 16 * 16 + b % 16 == b);
        assert(seq![(b / 16 * 16 + b % 16) as u8] + v.drop_first() =~= v);
    }
}

/// Hex text holds only digit bytes: no quote, no backslash, no control.
pub proof fn lemma_hex_bytes_plain(v: Seq<u8>)
    ensures
        forall|i: int| 0 <= i < hex_bytes_of(v).len() ==> (
            48 <= #[trigger] hex_bytes_of(v)[i] <= 57 || 97 <= hex_bytes_of(v)[i] <= 102
        ),
    decreases v.len(),
{
    if v.len() > 0 {
        lemma_hex_bytes_plain(v.drop_first());
        assert(hex_bytes_of(v) =~= seq![
            hex_byte(v.first() as int / 16),
            hex_byte((v.first() % 16) as int),
        ] + hex_bytes_of(v.drop_first()));
    }
}

/// One standard base64 digit needs no JSON escaping.
proof fn lemma_b64_byte_plain(n: int)
    requires
        0 <= n < 64,
    ensures
        b64_byte(n) != 34 && b64_byte(n) != 92 && b64_byte(n) >= 32,
{
}

/// Standard base64 text holds only alphabet and padding bytes: no quote,
/// no backslash, no control.
pub proof fn lemma_b64_bytes_plain(v: Seq<u8>)
    ensures
        forall|i: int| 0 <= i < b64_of(v).len() ==> (#[trigger] b64_of(v)[i] != 34
            && b64_of(v)[i] != 92 && b64_of(v)[i] >= 32),
    decreases v.len(),
{
    let e = b64_of(v);
    if v.len() == 0 {
    } else if v.len() == 1 {
        let b0 = v[0] as int;
        lemma_b64_byte_plain(b0 / 4);
        lemma_b64_byte_plain(b0 % 4 * 16);
        assert(e =~= seq![b64_byte(b0 / 4), b64_byte(b0 % 4 * 16), 61u8, 61u8]);
    } else if v.len() == 2 {
        let b0 = v[0] as int;
        let b1 = v[1] as int;
        lemma_b64_byte_plain(b0 / 4);
        lemma_b64_byte_plain(b0 % 4 * 16 + b1 / 16);
        lemma_b64_byte_plain(b1 % 16 * 4);
        assert(e =~= seq![
            b64_byte(b0 / 4),
            b64_byte(b0 % 4 * 16 + b1 / 16),
            b64_byte(b1 % 16 * 4),
            61u8,
        ]);
    } else {
        let b0 = v[0] as int;
        let b1 = v[1] as int;
        let b2 = v[2] as int;
        lemma_b64_byte_plain(b0 / 4);
        lemma_b64_byte_plain(b0 % 4 * 16 + b1 / 16);
        lemma_b64_byte_plain(b1 % 16 * 4 + b2 / 64);
        lemma_b64_byte_plain(b2 % 64);
        lemma_b64_bytes_plain(v.skip(3));
        let head = seq![
            b64_byte(b0 / 4),
            b64_byte(b0 % 4 * 16 + b1 / 16),
            b64_byte(b1 % 16 * 4 + b2 / 64),
            b64_byte(b2 % 64),
        ];
        assert(e =~= head + b64_of(v.skip(3)));
        assert forall|i: int| 0 <= i < e.len() implies (#[trigger] e[i] != 34 && e[i] != 92
            && e[i] >= 32) by {
            if i >= 4 {
                assert(e[i] == b64_of(v.skip(3))[i - 4]);
            }
        }
    }
}

/// One URL-safe base64 digit is never a dot.
proof fn lemma_b64url_byte_no_dot(n: int)
    requires
        0 <= n < 64,
    ensures
        b64url_byte(n) != 46,
{
}

/// URL-safe base64 text never holds a dot.
pub proof fn lemma_b64url_no_dot(v: Seq<u8>)
    ensures
        forall|i: int| 0 <= i < b64url_of(v).len() ==> #[trigger] b64url_of(v)[i] != 46,
    decreases v.len(),
{
    let e = b64url_of(v);
    if v.len() == 0 {
    } else if v.len() == 1 {
        let b0 = v[0] as int;
        lemma_b64url_byte_no_dot(b0 / 4);
        lemma_b64url_byte_no_dot(b0 % 4 * 16);
        assert(e =~= seq![b64url_byte(b0 / 4), b64url_byte(b0 % 4 * 16)]);
    } else if v.len() == 2 {
        let b0 = v[0] as int;
        let b1 = v[1] as int;
        lemma_b64url_byte_no_dot(b0 / 4);
        lemma_b64url_byte_no_dot(b0 % 4 * 16 + b1 / 16);
        lemma_b64url_byte_no_dot(b1 % 16 * 4);
        assert(e =~= seq![
            b64url_byte(b0 / 4),
            b64url_byte(b0 % 4 * 16 + b1 / 16),
            b64url_byte(b1 % 16 * 4),
        ]);
    } else {
        let b0 = v[0] as int;
        let b1 = v[1] as int;
        let b2 = v[2] as int;
        lemma_b64url_byte_no_dot(b0 / 4);
        lemma_b64url_byte_no_dot(b0 % 4 * 16 + b1 / 16);
        lemma_b64url_byte_no_dot(b1 % 16 * 4 + b2 / 64);
        lemma_b64url_byte_no_dot(b2 % 64);
        lemma_b64url_no_dot(v.skip(3));
        let head = seq![
            b64url_byte(b0 / 4),
            b64url_byte(b0 % 4 * 16 + b1 / 16),
            b64url_byte(b1 % 16 * 4 + b2 / 64),
            b64url_byte(b2 % 64),
        ];
        assert(e =~= head + b64url_of(v.skip(3)));
        assert forall|i: int| 0 <= i < e.len() implies #[trigger] e[i] != 46 by {
            if i >= 4 {
                assert(e[i] == b64url_of(v.skip(3))[i - 4]);
            }
        }
    }
}

/// A URL-safe base64 digit reads back as its value.
proof fn lemma_b64url_val_of_byte(n: int)
    requires
        0 <= n < 64,
    ensures
        b64url_val(b64url_byte(n)) == Some(n),
{
}

/// URL-safe decoding undoes URL-safe encoding.
#[verifier::rlimit(100)]
#[verifier::spinoff_prover]
pub proof fn lemma_b64url_encode_parse(v: Seq<u8>)
    ensures
        b64url_parse(b64url_of(v)) == Some(v),
    decreases v.len(),
{
    let e = b64url_of(v);
    if v.len() == 0 {
        assert(e =~= Seq::<u8>::empty());
        assert(Seq::<u8>::empty() =~= v);
    } else if v.len() == 1 {
        let b0 = v[0] as int;
        lemma_b64url_val_of_byte(b0 / 4);
        lemma_b64url_val_of_byte(b0 % 4 * 16);
        assert(e.len() == 2);
        assert(b0 % 4 * 16 % 16 == 0);
        assert(b0 / 4 * 4 + b0 % 4 * 16 / 16 == b0);
        assert(seq![(b0 / 4 * 4 + b0 % 4 * 16 / 16) as u8] =~= v);
    } else if v.len() == 2 {
        let b0 = v[0] as int;
        let b1 = v[1] as int;
        lemma_b64url_val_of_byte(b0 / 4);
        lemma_b64url_val_of_byte(b0 % 4 * 16 + b1 / 16);
        lemma_b64url_val_of_byte(b1 % 16 * 4);
        assert(e.len() == 3);
        assert(b1 % 16 * 4 % 4 == 0);
        assert(b0 / 4 * 4 + (b0 % 4 * 16 + b1 / 16) / 16 == b0);
        assert((b0 % 4 * 16 + b1 / 16) % 16 * 16 + b1 % 16 * 4 / 4 == b1);
        assert(seq![b0 as u8, b1 as u8] =~= v);
    } else {
        let b0 = v[0] as int;
        let b1 = v[1] as int;
        let b2 = v[2] as int;
        lemma_b64url_val_of_byte(b0 / 4);
        lemma_b64url_val_of_byte(b0 % 4 * 16 + b1 / 16);
        lemma_b64url_val_of_byte(b1 % 16 * 4 + b2 / 64);
        lemma_b64url_val_of_byte(b2 % 64);
        let head = seq![
            b64url_byte(b0 / 4),
            b64url_byte(b0 % 4 * 16 + b1 / 16),
            b64url_byte(b1 % 16 * 4 + b2 / 64),
            b64url_byte(b2 % 64),
        ];
        assert(e =~= head + b64url_of(v.skip(3)));
        lemma_b64url_encode_parse(v.skip(3));
        assert(e.len() >= 4);
        assert(e[0] == head[0] && e[1] == head[1] && e[2] == head[2] && e[3] == head[3]);
        assert(e.skip(4) =~= b64url_of(v.skip(3)));
        assert(b0 / 4 * 4 + (b0 % 4 * 16 + b1 / 16) / 16 == b0);
        assert((b0 % 4 * 16 + b1 / 16) % 16 * 16 + (b1 % 16 * 4 + b2 / 64) / 4 == b1);
        assert((b1 % 16 * 4 + b2 / 64) % 4 * 64 + b2 % 64 == b2);
        assert(seq![b0 as u8, b1 as u8, b2 as u8] + v.skip(3) =~= v);
    }
}

/// Byte strings that need no JSON escaping: no quote, no backslash, no
/// control byte.
pub open spec fn bytes_plain(s: Seq<u8>) -> bool {
    forall|i: int| 0 <= i < s.len() ==> (#[trigger] s[i] != 34 && s[i] != 92 && s[i] >= 32)
}

/// Escaping a plain byte string changes nothing.
pub proof fn lemma_plain_escape_identity(s: Seq<u8>)
    requires
        bytes_plain(s),
    ensures
        json_escaped(s) == s,
    decreases s.len(),
{
    if s.len() == 0 {
        assert(json_escaped(s) =~= s);
    } else {
        assert(s[0] != 34 && s[0] != 92 && s[0] >= 32);
        assert(json_esc_byte(s.first()) =~= seq![s.first()]);
        lemma_plain_escape_identity(s.drop_first());
        assert(json_escaped(s) =~= seq![s.first()] + s.drop_first());
        assert(seq![s.first()] + s.drop_first() =~= s);
    }
}


/// Splitting a known concatenation inside a larger byte string.
pub proof fn lemma_concat_parts(x: Seq<u8>, y: Seq<u8>, s: Seq<u8>, off: int)
    requires
        0 <= off,
        off + x.len() + y.len() <= s.len(),
        s.subrange(off, off + x.len() + y.len()) == x + y,
    ensures
        s.subrange(off, off + x.len() as int) == x,
        s.subrange(off + x.len() as int, off + x.len() + y.len()) == y,
{
    assert forall|j: int| 0 <= j < x.len() + y.len() implies s[off + j] == (x + y)[j] by {
        assert(s.subrange(off, off + x.len() + y.len())[j] == s[off + j]);
    }
    assert(s.subrange(off, off + x.len() as int) =~= x);
    assert forall|j: int| 0 <= j < y.len() implies s[off + x.len() + j] == #[trigger] y[j] by {
        assert(s[off + (x.len() + j)] == (x + y)[x.len() + j]);
    }
    assert(s.subrange(off + x.len() as int, off + x.len() + y.len()) =~= y);
}


/// A subrange of an embedded byte string, read through its host.
pub proof fn lemma_subrange_offset(s: Seq<u8>, t: Seq<u8>, q: int, a: int, b: int)
    requires
        0 <= q,
        q + t.len() <= s.len(),
        s.subrange(q, q + t.len() as int) == t,
        0 <= a <= b <= t.len(),
    ensures
        s.subrange(q + a, q + b) == t.subrange(a, b),
{
    assert forall|j: int| 0 <= j < b - a implies s[q + a + j] == #[trigger] t[a + j] by {
        assert(s.subrange(q, q + t.len() as int)[a + j] == s[q + a + j]);
    }
    assert(s.subrange(q + a, q + b) =~= t.subrange(a, b));
}

/// Relies on std's String::from_utf8: turns bytes into the string they
/// encode, exactly when they are valid UTF-8.
#[verifier::external_body]
pub fn bytes_to_string(v: Vec<u8>) -> (r: Option<String>)
    ensures
        r is Some <==> vstd::utf8::valid_utf8(v@),
        r matches Some(s) ==> vstd::utf8::encode_utf8(s@) == v@,
{
    String::from_utf8(v).ok()
}

/// ASCII bytes turned into a `String`, character for character.
pub fn ascii_to_string(data: &Vec<u8>) -> (r: String)
    requires
        forall|i: int| 0 <= i < data@.len() ==> data@[i] < 128,
    ensures
        r@ == ascii_chars_of(data@),
{
    let mut r = String::new();
    for i in 0..data.len()
        invariant
            r@ =~= ascii_chars_of(data@.take(i as int)),
            forall|j: int| 0 <= j < data@.len() ==> data@[j] < 128,
    {
        push_char(&mut r, data[i] as char);
        proof {
            assert(data@.take(i + 1) =~= data@.take(i as int).push(data@[i as int]));
            assert(ascii_chars_of(data@.take(i + 1)) =~= ascii_chars_of(data@.take(i as int)).push(data@[i as int] as char));
        }
    }
    proof {
        assert(data@.take(data@.len() as int) == data@);
    }
    r
}

} // verus!
