//! Digest and encoding primitives the runtime relies on: SHA-256, base-32
//! encoding, case folding, and a verified hexadecimal encoder.

use sha2::Digest;
use vstd::prelude::*;

verus! {

/// The SHA-256 digest of a byte sequence.
pub uninterp spec fn sha256_of(data: Seq<u8>) -> Seq<u8>;

/// The RFC 4648 base-32 encoding of a byte sequence, without padding.
pub uninterp spec fn base32_nopad_of(data: Seq<u8>) -> Seq<char>;

/// The Unicode lowercase form of a character sequence.
pub uninterp spec fn lower_of(s: Seq<char>) -> Seq<char>;

/// Relies on sha2::Sha256: the digest is a function of the input bytes
/// alone and is 32 bytes long.
#[verifier::external_body]
pub fn sha256(data: &[u8]) -> (r: Vec<u8>)
    ensures
        r@ == sha256_of(data@),
        r@.len() == 32,
{
    let mut hasher = sha2::Sha256::new();
    hasher.update(data);
    hasher.finalize().to_vec()
}

/// Relies on base32::encode with the RFC 4648 alphabet and no padding:
/// the encoding is a function of the input bytes alone, eight characters
/// for every five bytes, rounded up per the trailing group.
#[verifier::external_body]
pub fn base32_nopad(data: &[u8]) -> (r: String)
    ensures
        r@ == base32_nopad_of(data@),
        r@.len() == (data@.len() * 8 + 4) / 5,
{
    base32::encode(base32::Alphabet::Rfc4648 { padding: false }, data)
}

/// Relies on str::to_lowercase: the result is a function of the input
/// characters alone, and an empty string stays empty.
#[verifier::external_body]
pub fn lowercase(s: &str) -> (r: String)
    ensures
        r@ == lower_of(s@),
        s@.len() == 0 ==> r@.len() == 0,
{
    s.to_lowercase()
}

/// The sixteen digits of upper-case hexadecimal.
pub open spec fn hex_digit(v: u8) -> char {
    seq!['0', '1', '2', '3', '4', '5', '6', '7', '8', '9', 'A', 'B', 'C', 'D', 'E', 'F'][v as int]
}

/// Two upper-case hexadecimal digits for every byte, in order.
pub open spec fn spec_hex_upper(data: Seq<u8>) -> Seq<char>
    decreases data.len(),
{
    if data.len() == 0 {
        Seq::empty()
    } else {
        seq![hex_digit(data.first() / 16), hex_digit(data.first() % 16)] + spec_hex_upper(
            data.drop_first(),
        )
    }
}

/// Encodes bytes as upper-case hexadecimal, two digits per byte.
pub fn hex_upper(data: &[u8]) -> (r: String)
    ensures
        r@ == spec_hex_upper(data@),
        r@.len() == 2 * data@.len(),
{
    let mut out = String::new();
    let mut i: usize = 0;
    proof {
        lemma_hex_upper_len(data@);
        assert(data@.skip(0) =~= data@);
        assert(Seq::<char>::empty() + spec_hex_upper(data@) =~= spec_hex_upper(data@));
    }
    while i < data.len()
        invariant
            0 <= i <= data@.len(),
            out@ + spec_hex_upper(data@.skip(i as int)) == spec_hex_upper(data@),
            out@.len() == 2 * i,
        decreases data@.len() - i,
    {
        let b = data[i];
        let hi: u8 = b / 16;
        let lo: u8 = b % 16;
        proof {
            assert(data@.skip(i as int).first() == data@[i as int]);
            assert(data@.skip(i as int).drop_first() =~= s_skip(data@, i as int + 1));
        }
        out.append(hex_digit_str(hi));
        out.append(hex_digit_str(lo));
        i = i + 1;
    }
    proof {
        assert(data@.skip(data@.len() as int) =~= Seq::<u8>::empty());
        assert(out@ + Seq::<char>::empty() =~= out@);
        lemma_hex_upper_len(data@);
    }
    out
}

/// Shorthand for `Seq::skip`, so proof lines stay within the page.
pub open spec fn s_skip(s: Seq<u8>, n: int) -> Seq<u8> {
    s.skip(n)
}

/// The hexadecimal encoding is twice as long as its input.
pub proof fn lemma_hex_upper_len(data: Seq<u8>)
    ensures
        spec_hex_upper(data).len() == 2 * data.len(),
    decreases data.len(),
{
    if data.len() > 0 {
        lemma_hex_upper_len(data.drop_first());
    }
}

/// The one-character string of an upper-case hexadecimal digit.
fn hex_digit_str(v: u8) -> (r: &'static str)
    requires
        v < 16,
    ensures
        r@ == seq![hex_digit(v)],
{
    proof {
        reveal_strlit("0");
        reveal_strlit("1");
        reveal_strlit("2");
        reveal_strlit("3");
        reveal_strlit("4");
        reveal_strlit("5");
        reveal_strlit("6");
        reveal_strlit("7");
        reveal_strlit("8");
        reveal_strlit("9");
        reveal_strlit("A");
        reveal_strlit("B");
        reveal_strlit("C");
        reveal_strlit("D");
        reveal_strlit("E");
        reveal_strlit("F");
    }
    match v {
        0 => "0",
        1 => "1",
        2 => "2",
        3 => "3",
        4 => "4",
        5 => "5",
        6 => "6",
        7 => "7",
        8 => "8",
        9 => "9",
        10 => "A",
        11 => "B",
        12 => "C",
        13 => "D",
        14 => "E",
        _ => "F",
    }
}

} // verus!
