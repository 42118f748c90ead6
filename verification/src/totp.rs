//! Time-based one-time passwords: base32 secrets, HMAC-SHA1, and six-digit codes
//! that change every thirty seconds.
use crate::text::{
    all_ascii, all_white, ascii_lower, ascii_upper, chars_of, digit_char, digits_value, is_digit,
    lemma_trimmed_holds, lemma_trimmed_keeps, lemma_trimmed_surrounded, to_upper, trim, trimmed, trimmed_end, trimmed_start, unicode_upper,
    white_space, without,
};
use hmac::{Hmac, Mac};
use sha1::Sha1;
use vstd::arithmetic::div_mod::{
    lemma_div_denominator, lemma_div_multiples_vanish, lemma_fundamental_div_mod,
    lemma_fundamental_div_mod_converse, lemma_mod_bound, lemma_mod_breakdown, lemma_mod_mod,
    lemma_small_mod,
};
use vstd::arithmetic::power2::{lemma2_to64, lemma2_to64_rest, lemma_pow2_adds, lemma_pow2_pos, pow2};
use vstd::prelude::*;

verus! {

/// Seconds for which one code is valid.
pub const TOTP_PERIOD: u64 = 30;

// ---------------------------------------------------------------------------
// Base32
// ---------------------------------------------------------------------------

/// The five-bit value of a base32 letter: `A`–`Z` are 0 to 25, `2`–`7` are 26 to 31.
pub open spec fn base32_digit(c: char) -> Option<nat> {
    if 'A' <= c <= 'Z' {
        Some((c as nat - 'A' as nat) as nat)
    } else if '2' <= c <= '7' {
        Some((c as nat - '2' as nat + 26) as nat)
    } else {
        None
    }
}

/// Every character of `t` is a base32 letter.
pub open spec fn all_base32(t: Seq<char>) -> bool {
    forall|i: int| 0 <= i < t.len() ==> base32_digit(#[trigger] t[i]) is Some
}

/// The number whose base-32 digits are the letters of `t`, most significant first.
pub open spec fn base32_number(t: Seq<char>) -> nat
    decreases t.len(),
{
    if t.len() == 0 {
        0
    } else {
        base32_number(t.drop_last()) * 32 + base32_digit(t.last()).unwrap_or(0)
    }
}

/// The whole bytes in the bit string that the letters of `t` spell, five bits
/// each, most significant first; bits that fill no byte at the end are dropped.
pub open spec fn base32_bytes(t: Seq<char>) -> Seq<u8> {
    Seq::new(
        5 * t.len() / 8,
        |k: int|
            ((base32_number(t) / pow2((5 * t.len() - 8 * (k + 1)) as nat)) % 256) as u8,
    )
}

/// Padding, spaces and dashes, which a written secret may hold anywhere.
pub open spec fn secret_filler(c: char) -> bool {
    c == '=' || c == ' ' || c == '-'
}

/// The base32 letters of a secret as typed: trimmed, in capitals, without
/// padding, spaces and dashes.
pub open spec fn secret_letters(s: Seq<char>) -> Seq<char> {
    without(unicode_upper(trimmed(s)), |c: char| secret_filler(c))
}

/// The key that a typed secret stands for, if it is valid base32.
pub open spec fn secret_key(s: Seq<char>) -> Option<Seq<u8>> {
    if all_base32(secret_letters(s)) {
        Some(base32_bytes(secret_letters(s)))
    } else {
        None
    }
}

proof fn lemma_shifted_quotient(n: nat, v: nat, e: nat)
    requires
        v < 32,
    ensures
        (n * 32 + v) / pow2(e + 5) == n / pow2(e),
{
    lemma2_to64();
    lemma_pow2_adds(5, e);
    lemma_pow2_pos(e);
    lemma_div_denominator((n * 32 + v) as int, 32, pow2(e) as int);
    assert((n * 32 + v) / 32 == n);
    assert(pow2(e + 5) == 32 * pow2(e));
}

proof fn lemma_shifted_remainder(n: nat, v: nat, b: nat)
    requires
        v < 32,
    ensures
        (n % pow2(b)) * 32 + v == (n * 32 + v) % pow2(b + 5),
        (n % pow2(b)) * 32 + v < pow2(b + 5),
{
    lemma2_to64();
    lemma_pow2_adds(5, b);
    lemma_pow2_pos(b);
    let m = pow2(b) as int;
    let q = n as int / m;
    let r = n as int % m;
    lemma_fundamental_div_mod(n as int, m);
    lemma_mod_bound(n as int, m);
    assert(n * 32 + v == q * (32 * m) + (32 * r + v)) by (nonlinear_arith)
        requires
            n == m * q + r,
    ;
    lemma_fundamental_div_mod_converse((n * 32 + v) as int, 32 * m, q, 32 * r + v);
}

proof fn lemma_top_byte(n: nat, c: nat)
    ensures
        (n % pow2(c + 8)) / pow2(c) == (n / pow2(c)) % 256,
        (n % pow2(c + 8)) % pow2(c) == n % pow2(c),
{
    lemma2_to64();
    lemma_pow2_adds(c, 8);
    lemma_pow2_pos(c);
    let y = pow2(c) as int;
    lemma_mod_breakdown(n as int, y, 256);
    lemma_mod_mod(n as int, y, 256);
    lemma_mod_bound(n as int, y);
    let q = (n as int / y) % 256;
    lemma_fundamental_div_mod_converse((n as int) % (y * 256), y, q, n as int % y);
}

fn base32_value(c: char) -> (res: Option<u32>)
    ensures
        match res {
            Some(v) => base32_digit(c) == Some(v as nat) && v < 32,
            None => base32_digit(c) is None,
        },
{
    if 'A' <= c && c <= 'Z' {
        Some(c as u32 - 'A' as u32)
    } else if '2' <= c && c <= '7' {
        Some(c as u32 - '2' as u32 + 26)
    } else {
        None
    }
}

fn small_power(e: u32) -> (res: u32)
    requires
        e < 8,
    ensures
        res == pow2(e as nat),
        0 < res <= 128,
{
    proof {
        lemma2_to64();
    }
    if e == 0 {
        1
    } else if e == 1 {
        2
    } else if e == 2 {
        4
    } else if e == 3 {
        8
    } else if e == 4 {
        16
    } else if e == 5 {
        32
    } else if e == 6 {
        64
    } else {
        128
    }
}

fn drop_filler(v: &Vec<char>) -> (res: Vec<char>)
    ensures
        res@ == without(v@, |c: char| secret_filler(c)),
{
    let mut out: Vec<char> = Vec::new();
    let mut i: usize = 0;
    while i < v.len()
        invariant
            i <= v@.len(),
            out@ == without(v@.take(i as int), |c: char| secret_filler(c)),
        decreases v@.len() - i,
    {
        let c: char = v[i];
        proof {
            assert(v@.take(i + 1).drop_last() =~= v@.take(i as int));
        }
        if !(c == '=' || c == ' ' || c == '-') {
            out.push(c);
        }
        i += 1;
    }
    proof {
        assert(v@.take(v@.len() as int) =~= v@);
    }
    out
}

/// Decodes a base32 secret as typed. Small letters, padding, spaces and dashes
/// are accepted; any other character outside the alphabet makes it invalid.
pub fn totp_base32_decode(s: &str) -> (res: Option<Vec<u8>>)
    ensures
        match res {
            Some(key) => secret_key(s@) == Some(key@),
            None => secret_key(s@) is None,
        },
{
    let trimmed_text: String = trim(s);
    let upper: String = to_upper(trimmed_text.as_str());
    let raw: Vec<char> = chars_of(upper.as_str());
    let t: Vec<char> = drop_filler(&raw);
    let mut acc: u32 = 0;
    let mut bit_count: u32 = 0;
    let mut out: Vec<u8> = Vec::new();
    let mut i: usize = 0;
    proof {
        lemma2_to64();
        assert(t@.take(0).len() == 0);
    }
    while i < t.len()
        invariant
            i <= t@.len(),
            t@ == secret_letters(s@),
            all_base32(t@.take(i as int)),
            bit_count == (5 * i) % 8,
            out@.len() == (5 * i) / 8,
            acc == base32_number(t@.take(i as int)) % pow2(bit_count as nat),
            acc < 128,
            forall|k: int|
                0 <= k < out@.len() ==> #[trigger] out@[k] == (base32_number(t@.take(i as int))
                    / pow2((5 * i - 8 * (k + 1)) as nat)) % 256,
        decreases t@.len() - i,
    {
        let v: u32 = match base32_value(t[i]) {
            Some(v) => v,
            None => {
                proof {
                    assert(base32_digit(t@[i as int]) is None);
                }
                return None;
            },
        };
        let ghost n = base32_number(t@.take(i as int));
        let ghost n2 = base32_number(t@.take(i + 1));
        proof {
            let next = t@.take(i + 1);
            assert(next.drop_last() =~= t@.take(i as int));
            assert(next.last() == t@[i as int]);
            assert(n2 == n * 32 + v as nat);
            assert forall|k: int| 0 <= k < next.len() implies base32_digit(
                #[trigger] next[k],
            ) is Some by {
                if k < i {
                    assert(next[k] == t@.take(i as int)[k]);
                }
            }
            lemma_shifted_remainder(n, v as nat, bit_count as nat);
            assert forall|k: int| 0 <= k < out@.len() implies #[trigger] out@[k] == (n2 / pow2(
                (5 * (i + 1) - 8 * (k + 1)) as nat,
            )) % 256 by {
                let e = (5 * i - 8 * (k + 1)) as nat;
                lemma_shifted_quotient(n, v as nat, e);
                assert(e + 5 == 5 * (i + 1) - 8 * (k + 1));
            }
        }
        acc = acc * 32 + v;
        bit_count = bit_count + 5;
        if bit_count >= 8 {
            let ghost before = out@;
            bit_count = bit_count - 8;
            let p: u32 = small_power(bit_count);
            proof {
                lemma_top_byte(n2, bit_count as nat);
                lemma_mod_bound(n2 as int, pow2(bit_count as nat) as int);
            }
            out.push((acc / p) as u8);
            acc = acc % p;
            proof {
                assert(5 * (i + 1) - 8 * (before.len() + 1) == bit_count);
            }
        } else {
            proof {
                lemma2_to64();
                lemma_mod_bound(n2 as int, pow2(bit_count as nat) as int);
            }
        }
        i += 1;
    }
    proof {
        assert(t@.take(t@.len() as int) =~= t@);
        assert(out@ =~= base32_bytes(t@));
    }
    Some(out)
}

// ---------------------------------------------------------------------------
// Codes
// ---------------------------------------------------------------------------

/// The HMAC-SHA1 tag of a message under a key.
pub uninterp spec fn hmac_sha1_tag(key: Seq<u8>, message: Seq<u8>) -> Seq<u8>;

/// `Hmac::<Sha1>` of the crates `hmac` and `sha1`: `new_from_slice`, which takes
/// a key of any length, then `update` and `finalize`. The tag is a function of
/// key and message and is twenty bytes long.
#[verifier::external_body]
pub(crate) fn hmac_sha1(key: &[u8], message: &[u8]) -> (res: Vec<u8>)
    ensures
        res@ == hmac_sha1_tag(key@, message@),
        res@.len() == 20,
{
    let mut mac = <Hmac<Sha1> as Mac>::new_from_slice(key).expect("a key of any length is taken");
    mac.update(message);
    mac.finalize().into_bytes().to_vec()
}

/// The seconds since the Unix epoch on the machine's clock, or nothing when the
/// clock stands before the epoch: `SystemTime::now` of std, turned into a number.
/// Nothing is claimed of the value.
#[verifier::external_body]
pub(crate) fn unix_seconds() -> (res: Option<u64>) {
    std::time::SystemTime::now().duration_since(std::time::UNIX_EPOCH).ok().map(|d| d.as_secs())
}

/// The eight bytes of `n`, most significant first.
pub open spec fn counter_bytes(n: u64) -> Seq<u8> {
    Seq::new(8, |i: int| ((n as nat / pow2((8 * (7 - i)) as nat)) % 256) as u8)
}

/// The number that four bytes of the tag spell, without its top bit: they start
/// at the place that the low half of the last byte names.
pub open spec fn truncated_tag(tag: Seq<u8>) -> nat {
    let o = (tag[19] % 16) as int;
    ((tag[o] % 128) as nat) * 0x100_0000 + (tag[o + 1] as nat) * 0x1_0000 + (tag[o + 2] as nat)
        * 0x100 + (tag[o + 3] as nat)
}

/// `n` as six decimal digits, with leading zeros.
pub open spec fn six_digits(n: nat) -> Seq<char> {
    seq![
        digit_char((n / 100_000) % 10),
        digit_char((n / 10_000) % 10),
        digit_char((n / 1_000) % 10),
        digit_char((n / 100) % 10),
        digit_char((n / 10) % 10),
        digit_char(n % 10),
    ]
}

/// The code for a key at a Unix time.
pub open spec fn totp_code(key: Seq<u8>, secs: u64) -> Seq<char> {
    six_digits(truncated_tag(hmac_sha1_tag(key, counter_bytes(secs / TOTP_PERIOD))) % 1_000_000)
}

/// The seconds for which the code at a Unix time is still valid.
pub open spec fn totp_remaining(secs: u64) -> u64 {
    (TOTP_PERIOD - secs % TOTP_PERIOD) as u64
}

fn counter_to_bytes(n: u64) -> (res: Vec<u8>)
    ensures
        res@ == counter_bytes(n),
{
    let mut out: Vec<u8> = Vec::new();
    out.push((n / 0x100_0000_0000_0000 % 256) as u8);
    out.push((n / 0x1_0000_0000_0000 % 256) as u8);
    out.push((n / 0x100_0000_0000 % 256) as u8);
    out.push((n / 0x1_0000_0000 % 256) as u8);
    out.push((n / 0x100_0000 % 256) as u8);
    out.push((n / 0x1_0000 % 256) as u8);
    out.push((n / 0x100 % 256) as u8);
    out.push((n % 256) as u8);
    proof {
        lemma2_to64();
        lemma2_to64_rest();
        let spelled = counter_bytes(n);
        assert(spelled[0] == out@[0]);
        assert(spelled[1] == out@[1]);
        assert(spelled[2] == out@[2]);
        assert(spelled[3] == out@[3]);
        assert(spelled[4] == out@[4]);
        assert(spelled[5] == out@[5]);
        assert(spelled[6] == out@[6]);
        assert(n as nat / 1 == n as nat);
        assert(spelled[7] == out@[7]);
        assert(out@ =~= spelled);
    }
    out
}

fn digit_at(n: u32) -> (res: char)
    ensures
        res == digit_char((n % 10) as nat),
{
    let b: u8 = 48 + (n % 10) as u8;
    b as char
}

fn six_digit_text(n: u32) -> (res: String)
    ensures
        res@ == six_digits(n as nat),
{
    let mut out: String = String::new();
    out.push(digit_at(n / 100_000));
    out.push(digit_at(n / 10_000));
    out.push(digit_at(n / 1_000));
    out.push(digit_at(n / 100));
    out.push(digit_at(n / 10));
    out.push(digit_at(n));
    proof {
        assert(out@ =~= six_digits(n as nat));
    }
    out
}

/// The six digits of a twenty-byte tag.
pub fn code_of_tag(tag: &Vec<u8>) -> (res: String)
    requires
        tag@.len() == 20,
    ensures
        res@ == six_digits(truncated_tag(tag@) % 1_000_000),
{
    let o: usize = (tag[19] % 16) as usize;
    let number: u32 = (tag[o] % 128) as u32 * 0x100_0000 + tag[o + 1] as u32 * 0x1_0000 + tag[o
        + 2] as u32 * 0x100 + tag[o + 3] as u32;
    six_digit_text(number % 1_000_000)
}

/// The code and the seconds it remains valid at a given Unix time, or nothing if
/// the secret is invalid.
pub fn totp_at(secret_b32: &str, secs: u64) -> (res: Option<(String, u64)>)
    ensures
        match res {
            Some((code, remaining)) => {
                &&& secret_key(secret_b32@) is Some
                &&& code@ == totp_code(secret_key(secret_b32@).unwrap(), secs)
                &&& code@ == six_digits(
                    truncated_tag(
                        hmac_sha1_tag(
                            secret_key(secret_b32@).unwrap(),
                            counter_bytes((secs / 30) as u64),
                        ),
                    ) % 1_000_000,
                )
                &&& remaining == totp_remaining(secs)
                &&& remaining == 30 - secs % 30
            },
            None => secret_key(secret_b32@) is None,
        },
{
    match totp_base32_decode(secret_b32) {
        Some(key) => {
            let message: Vec<u8> = counter_to_bytes(secs / TOTP_PERIOD);
            let tag: Vec<u8> = hmac_sha1(key.as_slice(), message.as_slice());
            let remaining: u64 = TOTP_PERIOD - secs % TOTP_PERIOD;
            Some((code_of_tag(&tag), remaining))
        },
        None => None,
    }
}

/// The code and the seconds it remains valid for a reading of the clock: nothing if
/// the secret is invalid or the clock gave no time, and otherwise what holds at the
/// time that it gave.
pub fn totp_on(secret_b32: &str, clock: Option<u64>) -> (res: Option<(String, u64)>)
    ensures
        res is Some <==> secret_key(secret_b32@) is Some && clock is Some,
        res matches Some((code, remaining)) ==> {
            &&& code@ == totp_code(secret_key(secret_b32@).unwrap(), clock.unwrap())
            &&& remaining == totp_remaining(clock.unwrap())
        },
{
    match clock {
        Some(secs) => totp_at(secret_b32, secs),
        None => None,
    }
}

/// The code and the seconds it remains valid at the present time, or nothing if
/// the secret is invalid (or the clock stands before the Unix epoch).
pub fn totp_now(secret_b32: &str) -> (res: Option<(String, u64)>)
    ensures
        secret_key(secret_b32@) is None ==> res is None,
        res matches Some((code, remaining)) ==> exists|secs: u64|
            code@ == #[trigger] totp_code(secret_key(secret_b32@).unwrap(), secs) && remaining
                == totp_remaining(secs),
{
    totp_on(secret_b32, unix_seconds())
}

/// A secret field of a form is fine: it is empty, or valid base32.
pub open spec fn secret_acceptable(s: Seq<char>) -> bool {
    s.len() == 0 || secret_key(s) is Some
}

/// Whether a secret field of a form is fine.
pub fn is_secret_acceptable(s: &str) -> (res: bool)
    ensures
        res == secret_acceptable(s@),
        res == (s@.len() == 0 || secret_key(s@) is Some),
{
    s.is_empty() || totp_base32_decode(s).is_some()
}

// ---------------------------------------------------------------------------
// Laws
// ---------------------------------------------------------------------------

/// The number whose base-256 digits are the bytes of `b`, most significant first.
pub open spec fn bytes_number(b: Seq<u8>) -> nat
    decreases b.len(),
{
    if b.len() == 0 {
        0
    } else {
        bytes_number(b.drop_last()) * 256 + b.last() as nat
    }
}

/// The base32 letter of a five-bit value.
pub open spec fn base32_letter(v: nat) -> char {
    if v < 26 {
        ('A' as nat + v) as char
    } else {
        ('2' as nat + (v - 26)) as char
    }
}

/// The `len` lowest five-bit groups of a number as base32 letters, most significant
/// first.
pub open spec fn letters_of(n: nat, len: nat) -> Seq<char> {
    Seq::new(len, |i: int| base32_letter((n / pow2((5 * (len - 1 - i)) as nat)) % 32))
}

/// How many base32 letters `n` bytes take.
pub open spec fn base32_len(n: nat) -> nat {
    (8 * n + 4) / 5
}

/// The base32 text of a byte string, without padding: its bits in groups of five,
/// the last group filled up with zero bits.
pub open spec fn base32_text(b: Seq<u8>) -> Seq<char> {
    let len = base32_len(b.len());
    letters_of(bytes_number(b) * pow2((5 * len - 8 * b.len()) as nat), len)
}

/// `w` is a way to write `letters`: each letter in either case, with padding, spaces
/// and dashes wherever one likes.
pub open spec fn written_as(w: Seq<char>, letters: Seq<char>) -> bool
    decreases w.len(),
{
    if w.len() == 0 {
        letters.len() == 0
    } else if secret_filler(w.last()) {
        written_as(w.drop_last(), letters)
    } else {
        &&& letters.len() > 0
        &&& w.last() == letters.last() || w.last() == ascii_lower(letters.last())
        &&& written_as(w.drop_last(), letters.drop_last())
    }
}

proof fn lemma_letters_number(n: nat, len: nat)
    ensures
        all_base32(letters_of(n, len)),
        base32_number(letters_of(n, len)) == n % pow2(5 * len),
    decreases len,
{
    lemma2_to64();
    let t = letters_of(n, len);
    assert forall|i: int| 0 <= i < t.len() implies base32_digit(#[trigger] t[i]) is Some by {
        lemma_mod_bound((n / pow2((5 * (len - 1 - i)) as nat)) as int, 32);
    }
    if len > 0 {
        let shorter = (len - 1) as nat;
        assert forall|i: int| 0 <= i < shorter implies t[i] == #[trigger] letters_of(
            n / 32,
            shorter,
        )[i] by {
            let e = (5 * (shorter - 1 - i)) as nat;
            lemma_pow2_adds(5, e);
            lemma_pow2_pos(e);
            lemma_div_denominator(n as int, 32, pow2(e) as int);
            assert(5 * (len - 1 - i) == e + 5);
        }
        assert(t.drop_last() =~= letters_of(n / 32, shorter));
        lemma_letters_number(n / 32, shorter);
        assert(t.last() == base32_letter(n % 32)) by {
            assert(n / 1 == n);
        }
        assert(base32_digit(t.last()) == Some(n % 32));
        lemma_shifted_remainder(n / 32, n % 32, 5 * shorter);
        assert((n / 32) * 32 + n % 32 == n);
        assert(5 * shorter + 5 == 5 * len);
    }
}

proof fn lemma_bytes_number(b: Seq<u8>, k: int)
    requires
        0 <= k < b.len(),
    ensures
        (bytes_number(b) / pow2((8 * (b.len() - 1 - k)) as nat)) % 256 == b[k],
    decreases b.len(),
{
    lemma2_to64();
    let n = bytes_number(b);
    let rest = b.drop_last();
    assert(n / 256 == bytes_number(rest));
    if k == b.len() - 1 {
        assert(n / 1 == n);
    } else {
        lemma_bytes_number(rest, k);
        let e = (8 * (rest.len() - 1 - k)) as nat;
        lemma_pow2_adds(8, e);
        lemma_pow2_pos(e);
        lemma_div_denominator(n as int, 256, pow2(e) as int);
        assert(8 * (b.len() - 1 - k) == e + 8);
    }
}

proof fn lemma_bytes_number_bound(b: Seq<u8>)
    ensures
        bytes_number(b) < pow2(8 * b.len()),
    decreases b.len(),
{
    lemma2_to64();
    if b.len() > 0 {
        lemma_bytes_number_bound(b.drop_last());
        lemma_pow2_adds(8, 8 * (b.len() - 1) as nat);
        assert(8 + 8 * (b.len() - 1) == 8 * b.len());
    }
}

/// The bytes of a base32 text are the bytes it was made from.
pub proof fn law_base32_round_trip(b: Seq<u8>)
    ensures
        all_base32(base32_text(b)),
        base32_bytes(base32_text(b)) == b,
{
    let n = bytes_number(b);
    let len = base32_len(b.len());
    let spare = (5 * len - 8 * b.len()) as nat;
    let m = n * pow2(spare);
    let t = base32_text(b);
    lemma_letters_number(m, len);
    lemma_bytes_number_bound(b);
    lemma_pow2_pos(spare);
    lemma_pow2_adds(8 * b.len(), spare);
    assert(8 * b.len() + spare == 5 * len);
    assert(m < pow2(5 * len)) by (nonlinear_arith)
        requires
            n < pow2(8 * b.len()),
            m == n * pow2(spare),
            pow2(spare) > 0,
            pow2(5 * len) == pow2(8 * b.len()) * pow2(spare),
    ;
    lemma_small_mod(m, pow2(5 * len));
    assert(base32_number(t) == m);
    assert(5 * t.len() / 8 == b.len());
    assert forall|k: int| 0 <= k < b.len() implies base32_bytes(t)[k] == #[trigger] b[k] by {
        let e = (8 * (b.len() - 1 - k)) as nat;
        lemma_bytes_number(b, k);
        lemma_pow2_adds(spare, e);
        lemma_pow2_pos(e);
        lemma_div_denominator(m as int, pow2(spare) as int, pow2(e) as int);
        lemma_div_multiples_vanish(n as int, pow2(spare) as int);
        assert(m == pow2(spare) * n) by (nonlinear_arith)
            requires
                m == n * pow2(spare),
        ;
        assert(m / pow2(spare) == n);
        assert(5 * t.len() - 8 * (k + 1) == spare + e);
    }
    assert(base32_bytes(t) =~= b);
}

proof fn lemma_written_without_first(w: Seq<char>, letters: Seq<char>)
    requires
        written_as(w, letters),
        w.len() > 0,
        secret_filler(w[0]),
    ensures
        written_as(w.subrange(1, w.len() as int), letters),
    decreases w.len(),
{
    let rest = w.subrange(1, w.len() as int);
    if w.len() == 1 {
        assert(rest =~= w.drop_last());
    } else {
        assert(rest.last() == w.last());
        assert(rest.drop_last() =~= w.drop_last().subrange(1, w.len() - 1));
        if secret_filler(w.last()) {
            lemma_written_without_first(w.drop_last(), letters);
        } else {
            lemma_written_without_first(w.drop_last(), letters.drop_last());
        }
    }
}

proof fn lemma_written_white_is_filler(w: Seq<char>, letters: Seq<char>, i: int)
    requires
        written_as(w, letters),
        all_base32(letters),
        0 <= i < w.len(),
    ensures
        (w[i] as u32) < 128,
        white_space(w[i]) ==> secret_filler(w[i]),
    decreases w.len(),
{
    if i < w.len() - 1 {
        assert(w[i] == w.drop_last()[i]);
        if secret_filler(w.last()) {
            lemma_written_white_is_filler(w.drop_last(), letters, i);
        } else {
            lemma_written_white_is_filler(w.drop_last(), letters.drop_last(), i);
        }
    } else if !secret_filler(w.last()) {
        assert(base32_digit(letters[letters.len() - 1]) is Some);
    }
}

proof fn lemma_written_trimmed_start(w: Seq<char>, letters: Seq<char>)
    requires
        written_as(w, letters),
        all_base32(letters),
    ensures
        written_as(trimmed_start(w), letters),
    decreases w.len(),
{
    if w.len() > 0 && white_space(w[0]) {
        lemma_written_white_is_filler(w, letters, 0);
        lemma_written_without_first(w, letters);
        lemma_written_trimmed_start(w.subrange(1, w.len() as int), letters);
    }
}

proof fn lemma_written_trimmed_end(w: Seq<char>, letters: Seq<char>)
    requires
        written_as(w, letters),
        all_base32(letters),
    ensures
        written_as(trimmed_end(w), letters),
    decreases w.len(),
{
    if w.len() > 0 && white_space(w.last()) {
        lemma_written_white_is_filler(w, letters, w.len() - 1);
        lemma_written_trimmed_end(w.drop_last(), letters);
    }
}

proof fn lemma_written_letters(w: Seq<char>, letters: Seq<char>)
    requires
        written_as(w, letters),
        all_base32(letters),
    ensures
        without(w.map_values(|c: char| ascii_upper(c)), |c: char| secret_filler(c)) == letters,
    decreases w.len(),
{
    let upper = w.map_values(|c: char| ascii_upper(c));
    if w.len() == 0 {
        assert(upper =~= letters);
    } else {
        assert(upper.drop_last() =~= w.drop_last().map_values(|c: char| ascii_upper(c)));
        assert(upper.last() == ascii_upper(w.last()));
        if secret_filler(w.last()) {
            lemma_written_letters(w.drop_last(), letters);
        } else {
            let last = letters[letters.len() - 1];
            assert(base32_digit(last) is Some);
            assert(ascii_upper(w.last()) == last);
            lemma_written_letters(w.drop_last(), letters.drop_last());
            assert(letters.drop_last().push(last) =~= letters);
        }
    }
}

/// Decoding undoes encoding: however the base32 text of a key is written, in capitals
/// or small letters, with or without padding, with spaces and dashes anywhere and
/// white space around it, it stands for that key.
pub proof fn law_written_secret_decodes(
    key: Seq<u8>,
    before: Seq<char>,
    written: Seq<char>,
    after: Seq<char>,
)
    requires
        written_as(written, base32_text(key)),
        all_white(before),
        all_white(after),
    ensures
        secret_key(before + written + after) == Some(key),
{
    let letters = base32_text(key);
    law_base32_round_trip(key);
    lemma_trimmed_surrounded(before, written, after);
    lemma_written_trimmed_start(written, letters);
    lemma_written_trimmed_end(trimmed_start(written), letters);
    let w = trimmed(written);
    assert forall|i: int| 0 <= i < w.len() implies (#[trigger] w[i] as u32) < 128 by {
        lemma_written_white_is_filler(w, letters, i);
    }
    lemma_written_letters(w, letters);
}

/// Two times in the same thirty-second window have the same code.
pub proof fn law_code_constant_in_window(key: Seq<u8>, a: u64, b: u64)
    requires
        a / TOTP_PERIOD == b / TOTP_PERIOD,
    ensures
        totp_code(key, a) == totp_code(key, b),
{
}

/// A code is six decimal digits.
pub proof fn law_code_is_six_digits(key: Seq<u8>, secs: u64)
    ensures
        totp_code(key, secs).len() == 6,
        forall|i: int| 0 <= i < 6 ==> is_digit(#[trigger] totp_code(key, secs)[i]),
{
}

/// A code stays valid for at least one second and at most thirty, and the
/// remaining time ends exactly where the next window begins.
pub proof fn law_remaining_reaches_next_window(secs: u64)
    ensures
        1 <= totp_remaining(secs) <= TOTP_PERIOD,
        (secs + totp_remaining(secs)) % TOTP_PERIOD as int == 0,
        (secs + totp_remaining(secs)) / TOTP_PERIOD as int == secs / TOTP_PERIOD + 1,
{
}

/// Six digits written out stand for the number they were made from.
pub proof fn law_six_digits_value(n: nat)
    requires
        n < 1_000_000,
    ensures
        digits_value(six_digits(n)) == n,
{
    let d = six_digits(n);
    let d5 = d.drop_last();
    let d4 = d5.drop_last();
    let d3 = d4.drop_last();
    let d2 = d3.drop_last();
    let d1 = d2.drop_last();
    let d0 = d1.drop_last();
    assert(digits_value(d0) == 0);
    assert(digits_value(d1) == n / 100_000);
    assert(digits_value(d2) == n / 10_000);
    assert(digits_value(d3) == n / 1_000);
    assert(digits_value(d4) == n / 100);
    assert(digits_value(d5) == n / 10);
}

proof fn lemma_counter_bytes(n: u64, c: Seq<u8>)
    requires
        c.len() == 8,
        bytes_number(c) == n,
    ensures
        counter_bytes(n) == c,
{
    let spelled = counter_bytes(n);
    assert forall|i: int| 0 <= i < 8 implies spelled[i] == #[trigger] c[i] by {
        lemma_bytes_number(c, i);
        assert(8 * (c.len() - 1 - i) == 8 * (7 - i));
    }
    assert(spelled =~= c);
}

/// The code is the one of RFC 6238: take the HMAC-SHA1 tag, under the whole key and
/// nothing but the key, of the number of half minutes as eight bytes; read four bytes
/// of it, from the place that the low half of its last byte names, without the top
/// bit; the last six decimal digits of that number are the code.
pub proof fn law_code_of_rfc(key: Seq<u8>, secs: u64, counter: Seq<u8>)
    requires
        counter.len() == 8,
        bytes_number(counter) == secs / 30,
    ensures
        ({
            let tag = hmac_sha1_tag(key, counter);
            let o = (tag[19] % 16) as int;
            let code = totp_code(key, secs);
            &&& code.len() == 6
            &&& forall|i: int| 0 <= i < 6 ==> '0' <= #[trigger] code[i] <= '9'
            &&& digits_value(code) == ((tag[o] % 128) * 0x100_0000 + tag[o + 1] * 0x1_0000 + tag[o
                + 2] * 0x100 + tag[o + 3]) % 1_000_000
        }),
{
    lemma_counter_bytes(secs / 30, counter);
    let tag = hmac_sha1_tag(key, counter);
    law_code_is_six_digits(key, secs);
    law_six_digits_value(truncated_tag(tag) % 1_000_000);
}

/// A code counts down from thirty seconds to one, and then the next one comes.
pub proof fn law_remaining_counts_down(secs: u64)
    ensures
        secs % 30 == 0 ==> totp_remaining(secs) == 30,
        secs % 30 == 29 ==> totp_remaining(secs) == 1,
        secs % 30 < 29 && secs < u64::MAX ==> totp_remaining((secs + 1) as u64)
            == totp_remaining(secs) - 1,
        totp_remaining(secs) + secs % 30 == 30,
{
}

/// A number spelled by bytes: each further byte weighs a two hundred and fifty-sixth
/// of the one before it.
pub proof fn law_bytes_weigh(b: Seq<u8>, x: u8)
    ensures
        bytes_number(Seq::<u8>::empty()) == 0,
        bytes_number(b.push(x)) == bytes_number(b) * 256 + x,
{
    assert(b.push(x).drop_last() =~= b);
}

/// A secret that holds a character outside the base32 alphabet, other than padding,
/// spaces and dashes, is refused.
pub proof fn law_foreign_character_refused(before: Seq<char>, c: char, after: Seq<char>)
    requires
        all_ascii(before),
        all_ascii(after),
        0x21 <= c as u32 <= 0x7e,
        !('A' <= c <= 'Z' || 'a' <= c <= 'z' || '2' <= c <= '7' || c == '=' || c == '-'),
    ensures
        secret_key(before.push(c) + after) is None,
{
    let s = before.push(c) + after;
    let i = before.len() as int;
    assert(s[i] == c);
    lemma_trimmed_keeps(s, i);
    let t = trimmed(s);
    let k = choose|k: int| 0 <= k < t.len() && t[k] == c;
    assert forall|j: int| 0 <= j < t.len() implies (#[trigger] t[j] as u32) < 128 by {
        lemma_trimmed_holds(s, j);
        let m = choose|m: int| 0 <= m < s.len() && s[m] == t[j];
        if m < i {
            assert(s[m] == before[m]);
        } else if m > i {
            assert(s[m] == after[m - i - 1]);
        }
    }
    let u = unicode_upper(t);
    assert(u[k] == c);
    let drop = |x: char| secret_filler(x);
    lemma_without_holds(u, drop, k);
    let letters = secret_letters(s);
    let m = choose|m: int| 0 <= m < letters.len() && letters[m] == c;
    assert(base32_digit(letters[m]) is None);
}

proof fn lemma_without_holds(s: Seq<char>, drop: spec_fn(char) -> bool, i: int)
    requires
        0 <= i < s.len(),
        !drop(s[i]),
    ensures
        exists|k: int| 0 <= k < without(s, drop).len() && #[trigger] without(s, drop)[k] == s[i],
    decreases s.len(),
{
    let t = without(s, drop);
    if i == s.len() - 1 {
        assert(t[t.len() - 1] == s[i]);
    } else {
        lemma_without_holds(s.drop_last(), drop, i);
        let shorter = without(s.drop_last(), drop);
        let k = choose|k: int| 0 <= k < shorter.len() && #[trigger] shorter[k] == s[i];
        assert(t[k] == shorter[k]);
    }
}

/// The bits of the letters, cut into bytes from the front, are the key; the few bits
/// behind the last whole byte are dropped.
pub proof fn law_base32_bits(t: Seq<char>)
    ensures
        base32_bytes(t).len() == 5 * t.len() / 8,
        bytes_number(base32_bytes(t)) == (base32_number(t) / pow2((5 * t.len()) % 8)) % pow2(
            8 * (5 * t.len() / 8),
        ),
{
    let b = base32_bytes(t);
    let spare = (5 * t.len()) % 8;
    let n = base32_number(t) / pow2(spare);
    assert forall|k: int| 0 <= k < b.len() implies #[trigger] b[k] == (n / pow2(
        (8 * (b.len() - 1 - k)) as nat,
    )) % 256 by {
        let e = (8 * (b.len() - 1 - k)) as nat;
        lemma_pow2_adds(spare, e);
        lemma_pow2_pos(e);
        lemma_pow2_pos(spare);
        lemma_div_denominator(base32_number(t) as int, pow2(spare) as int, pow2(e) as int);
        assert(5 * t.len() - 8 * (k + 1) == spare + e);
    }
    lemma_number_of_bytes(b, n);
}

proof fn lemma_number_of_bytes(b: Seq<u8>, n: nat)
    requires
        forall|k: int|
            0 <= k < b.len() ==> #[trigger] b[k] == (n / pow2((8 * (b.len() - 1 - k)) as nat))
                % 256,
    ensures
        bytes_number(b) == n % pow2(8 * b.len()),
    decreases b.len(),
{
    lemma2_to64();
    if b.len() > 0 {
        let rest = b.drop_last();
        let shorter = rest.len();
        assert forall|k: int| 0 <= k < rest.len() implies #[trigger] rest[k] == ((n / 256) / pow2(
            (8 * (rest.len() - 1 - k)) as nat,
        )) % 256 by {
            let e = (8 * (rest.len() - 1 - k)) as nat;
            lemma_pow2_adds(8, e);
            lemma_pow2_pos(e);
            lemma_div_denominator(n as int, 256, pow2(e) as int);
            assert(8 * (b.len() - 1 - k) == e + 8);
            assert(rest[k] == b[k]);
        }
        lemma_number_of_bytes(rest, n / 256);
        assert(b.last() == n % 256) by {
            assert(b[b.len() - 1] == (n / pow2(0)) % 256);
            assert(n / 1 == n);
        }
        lemma_pow2_adds(8, 8 * shorter);
        lemma_pow2_pos(8 * shorter);
        lemma_mod_breakdown(n as int, 256, pow2(8 * shorter) as int);
        assert(8 + 8 * shorter == 8 * b.len());
    }
}

/// The letters `A` to `Z` are worth 0 to 25, the digits `2` to `7` 26 to 31, and each
/// further letter weighs a thirty-second of the one before it.
pub proof fn law_letters_weigh(t: Seq<char>, v: nat)
    requires
        v < 32,
    ensures
        base32_number(Seq::<char>::empty()) == 0,
        v < 26 ==> base32_number(t.push(('A' as nat + v) as char)) == base32_number(t) * 32 + v,
        v >= 26 ==> base32_number(t.push(('2' as nat + v - 26) as char)) == base32_number(t) * 32
            + v,
{
    assert(t.push(('A' as nat + v) as char).drop_last() =~= t);
    assert(t.push(('2' as nat + v - 26) as char).drop_last() =~= t);
}

/// Padding, spaces and dashes may stand anywhere in a written secret, and nothing else
/// may.
pub proof fn law_filler_exact(c: char)
    ensures
        secret_filler(c) <==> c == '=' || c == ' ' || c == '-',
{
}

/// The empty secret is fine in a form, and so is exactly what can be decoded.
pub proof fn law_secret_acceptable_exact(s: Seq<char>)
    ensures
        secret_acceptable(s) <==> s.len() == 0 || secret_key(s) is Some,
{
}

} // verus!
