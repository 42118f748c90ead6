//! Base64 text for binary data: the padded standard alphabet of the vault file
//! and the unpadded URL-safe alphabet of record identifiers.
use base64::engine::general_purpose::{STANDARD, URL_SAFE_NO_PAD};
use base64::Engine;
use vstd::prelude::*;

verus! {

// ---------------------------------------------------------------------------
// Model
// ---------------------------------------------------------------------------

/// The six-bit groups of a byte string, first bit first; the last group is
/// filled up with zero bits.
pub open spec fn sextets(b: Seq<u8>) -> Seq<nat>
    decreases b.len(),
{
    if b.len() == 0 {
        Seq::empty()
    } else if b.len() == 1 {
        seq![b[0] as nat / 4, (b[0] as nat % 4) * 16]
    } else if b.len() == 2 {
        seq![
            b[0] as nat / 4,
            (b[0] as nat % 4) * 16 + b[1] as nat / 16,
            (b[1] as nat % 16) * 4,
        ]
    } else {
        seq![
            b[0] as nat / 4,
            (b[0] as nat % 4) * 16 + b[1] as nat / 16,
            (b[1] as nat % 16) * 4 + b[2] as nat / 64,
            b[2] as nat % 64,
        ] + sextets(b.subrange(3, b.len() as int))
    }
}

/// The letter for a six-bit value, with the given letters for 62 and 63.
pub open spec fn base64_letter(v: nat, c62: char, c63: char) -> char {
    if v < 26 {
        ('A' as nat + v) as char
    } else if v < 52 {
        ('a' as nat + (v - 26)) as char
    } else if v < 62 {
        ('0' as nat + (v - 52)) as char
    } else if v == 62 {
        c62
    } else {
        c63
    }
}

/// How many padding signs end the text of `n` bytes.
pub open spec fn padding_len(n: nat) -> nat {
    if n % 3 == 0 {
        0
    } else {
        (3 - n % 3) as nat
    }
}

/// A byte string in standard base64, with padding.
pub open spec fn standard_text(b: Seq<u8>) -> Seq<char> {
    sextets(b).map_values(|v: nat| base64_letter(v, '+', '/')) + Seq::new(
        padding_len(b.len()),
        |i: int| '=',
    )
}

/// A byte string in URL-safe base64, without padding.
pub open spec fn url_safe_text(b: Seq<u8>) -> Seq<char> {
    sextets(b).map_values(|v: nat| base64_letter(v, '-', '_'))
}

/// `t` is the standard base64 text of some byte string.
pub open spec fn is_standard_text(t: Seq<char>) -> bool {
    exists|b: Seq<u8>| #[trigger] standard_text(b) == t
}

/// The byte string whose standard base64 text is `t`, if there is one.
pub open spec fn standard_bytes(t: Seq<char>) -> Option<Seq<u8>> {
    if is_standard_text(t) {
        Some(choose|b: Seq<u8>| #[trigger] standard_text(b) == t)
    } else {
        None
    }
}

/// The standard base64 text of `n` bytes is no longer than a vector can be.
pub open spec fn standard_text_fits(n: nat) -> bool {
    (n + 2) / 3 * 4 <= isize::MAX
}

// ---------------------------------------------------------------------------
// The codec
// ---------------------------------------------------------------------------

/// `Engine::encode` of the crate `base64` with the engine `STANDARD`: the text of
/// the bytes in the standard alphabet, with padding. It panics when that text is
/// too long for memory to hold.
#[verifier::external_body]
pub(crate) fn encode_standard(b: &[u8]) -> (res: String)
    requires
        standard_text_fits(b@.len()),
    ensures
        res@ == standard_text(b@),
{
    STANDARD.encode(b)
}

/// `Engine::decode` of the crate `base64` with the engine `STANDARD`: it accepts
/// exactly the texts that encoding gives (padding in full, no stray bits in the
/// last letter) and returns the bytes they were made from.
#[verifier::external_body]
pub(crate) fn decode_standard(t: &str) -> (res: Option<Vec<u8>>)
    ensures
        match res {
            Some(b) => standard_text(b@) == t@,
            None => forall|b: Seq<u8>| #[trigger] standard_text(b) != t@,
        },
{
    STANDARD.decode(t).ok()
}

/// `Engine::encode` of the crate `base64` with the engine `URL_SAFE_NO_PAD`: the
/// text of the bytes in the URL-safe alphabet, without padding. It panics when
/// that text is too long for memory to hold.
#[verifier::external_body]
pub(crate) fn encode_url_safe(b: &[u8]) -> (res: String)
    requires
        standard_text_fits(b@.len()),
    ensures
        res@ == url_safe_text(b@),
{
    URL_SAFE_NO_PAD.encode(b)
}

// ---------------------------------------------------------------------------
// Laws
// ---------------------------------------------------------------------------

proof fn lemma_sextets_shape(b: Seq<u8>)
    ensures
        sextets(b).len() + padding_len(b.len()) == (b.len() + 2) / 3 * 4,
        forall|i: int| 0 <= i < sextets(b).len() ==> #[trigger] sextets(b)[i] < 64,
    decreases b.len(),
{
    if b.len() >= 3 {
        let rest = b.subrange(3, b.len() as int);
        lemma_sextets_shape(rest);
        let head = seq![
            b[0] as nat / 4,
            (b[0] as nat % 4) * 16 + b[1] as nat / 16,
            (b[1] as nat % 16) * 4 + b[2] as nat / 64,
            b[2] as nat % 64,
        ];
        assert(sextets(b) == head + sextets(rest));
        assert forall|i: int| 0 <= i < sextets(b).len() implies #[trigger] sextets(b)[i] < 64 by {
            if i >= 4 {
                assert(sextets(b)[i] == sextets(rest)[i - 4]);
            }
        }
    }
}

proof fn lemma_sextets_injective(a: Seq<u8>, b: Seq<u8>)
    requires
        sextets(a) == sextets(b),
        a.len() == b.len(),
    ensures
        a == b,
    decreases a.len(),
{
    if a.len() >= 3 {
        let ra = a.subrange(3, a.len() as int);
        let rb = b.subrange(3, b.len() as int);
        let sa = sextets(a);
        let sb = sextets(b);
        assert(sa[0] == sb[0] && sa[1] == sb[1] && sa[2] == sb[2] && sa[3] == sb[3]);
        assert(a[0] == b[0] && a[1] == b[1] && a[2] == b[2]);
        assert(sextets(ra) =~= sa.subrange(4, sa.len() as int));
        assert(sextets(rb) =~= sb.subrange(4, sb.len() as int));
        lemma_sextets_injective(ra, rb);
        assert forall|i: int| 0 <= i < a.len() implies a[i] == b[i] by {
            if i >= 3 {
                assert(a[i] == ra[i - 3]);
                assert(b[i] == rb[i - 3]);
            }
        }
        assert(a =~= b);
    } else if a.len() == 2 {
        let sa = sextets(a);
        let sb = sextets(b);
        assert(sa[0] == sb[0] && sa[1] == sb[1] && sa[2] == sb[2]);
        assert(a =~= b);
    } else if a.len() == 1 {
        let sa = sextets(a);
        let sb = sextets(b);
        assert(sa[0] == sb[0] && sa[1] == sb[1]);
        assert(a =~= b);
    } else {
        assert(a =~= b);
    }
}

/// Two byte strings with the same standard base64 text are the same.
pub proof fn law_standard_text_injective(a: Seq<u8>, b: Seq<u8>)
    requires
        standard_text(a) == standard_text(b),
    ensures
        a == b,
{
    lemma_sextets_shape(a);
    lemma_sextets_shape(b);
    let ta = standard_text(a);
    let tb = standard_text(b);
    let na = sextets(a).len() as int;
    let nb = sextets(b).len() as int;
    assert(ta.len() == na + padding_len(a.len()));
    assert(tb.len() == nb + padding_len(b.len()));
    // A padding sign is no letter, so both texts end in equally many of them.
    if na < nb {
        assert(ta[na] == '=');
        assert(tb[na] == base64_letter(sextets(b)[na], '+', '/'));
    }
    if nb < na {
        assert(tb[nb] == '=');
        assert(ta[nb] == base64_letter(sextets(a)[nb], '+', '/'));
    }
    assert forall|i: int| 0 <= i < na implies sextets(a)[i] == sextets(b)[i] by {
        assert(ta[i] == base64_letter(sextets(a)[i], '+', '/'));
        assert(tb[i] == base64_letter(sextets(b)[i], '+', '/'));
    }
    assert(sextets(a) =~= sextets(b));
    assert(a.len() == b.len());
    lemma_sextets_injective(a, b);
}

/// Decoding the standard base64 text of a byte string gives the byte string back.
pub proof fn law_standard_round_trip(b: Seq<u8>)
    ensures
        standard_bytes(standard_text(b)) == Some(b),
{
    let t = standard_text(b);
    assert(is_standard_text(t));
    let c = choose|c: Seq<u8>| #[trigger] standard_text(c) == t;
    law_standard_text_injective(c, b);
}

/// The standard base64 text of `n` bytes has four characters for every three
/// bytes begun.
pub proof fn law_standard_text_len(b: Seq<u8>)
    ensures
        standard_text(b).len() == (b.len() + 2) / 3 * 4,
{
    lemma_sextets_shape(b);
}

/// The URL-safe text of sixteen bytes has twenty-two characters, each a letter,
/// a digit, a dash or an underscore.
pub proof fn law_url_safe_text_of_sixteen(b: Seq<u8>)
    requires
        b.len() == 16,
    ensures
        url_safe_text(b).len() == 22,
        forall|i: int|
            0 <= i < 22 ==> {
                let c = #[trigger] url_safe_text(b)[i];
                'A' <= c <= 'Z' || 'a' <= c <= 'z' || '0' <= c <= '9' || c == '-' || c == '_'
            },
{
    lemma_sextets_shape(b);
    assert forall|i: int| 0 <= i < 22 implies {
        let c = #[trigger] url_safe_text(b)[i];
        'A' <= c <= 'Z' || 'a' <= c <= 'z' || '0' <= c <= '9' || c == '-' || c == '_'
    } by {
        assert(url_safe_text(b)[i] == base64_letter(sextets(b)[i], '-', '_'));
    }
}

} // verus!
