//! The integrity verifier: computes the content digest of a downloaded
//! file and compares its lowercase hexadecimal form to the checksum the
//! manifest declares.  A differing digest is a recorded outcome, not an
//! error; only a file that cannot be read at all is.

use vstd::prelude::*;
use crate::strutil::str_eq;

verus! {

/// The content digest that the fixed hashing algorithm assigns to a byte
/// string.  It depends on the bytes alone.
pub uninterp spec fn md5_of(data: Seq<u8>) -> Seq<u8>;

/// Relies on `md5::compute`: the digest of the given bytes, 16 bytes
/// long, a function of the input alone.
#[verifier::external_body]
fn md5_digest(data: &Vec<u8>) -> (r: Vec<u8>)
    ensures
        r@ == md5_of(data@),
        r@.len() == 16,
{
    md5::compute(data.as_slice()).0.to_vec()
}

/// The lowercase hexadecimal digit with value `n`.
pub open spec fn hex_digit(n: int) -> char {
    if n == 0 { '0' } else if n == 1 { '1' } else if n == 2 { '2' }
    else if n == 3 { '3' } else if n == 4 { '4' } else if n == 5 { '5' }
    else if n == 6 { '6' } else if n == 7 { '7' } else if n == 8 { '8' }
    else if n == 9 { '9' } else if n == 10 { 'a' } else if n == 11 { 'b' }
    else if n == 12 { 'c' } else if n == 13 { 'd' } else if n == 14 { 'e' }
    else { 'f' }
}

/// The lowercase hexadecimal encoding of a byte string: two digits per
/// byte, high nibble first.
pub open spec fn spec_hex(bytes: Seq<u8>) -> Seq<char>
    decreases bytes.len(),
{
    if bytes.len() == 0 {
        Seq::<char>::empty()
    } else {
        seq![hex_digit(bytes[0] as int / 16), hex_digit(bytes[0] as int % 16)]
            + spec_hex(bytes.drop_first())
    }
}

/// The one-character string holding the lowercase hexadecimal digit with
/// value `n`.
fn hex_char_str(n: u8) -> (r: &'static str)
    requires
        n < 16,
    ensures
        r@ == seq![hex_digit(n as int)],
{
    proof {
        reveal_strlit("0"); reveal_strlit("1"); reveal_strlit("2");
        reveal_strlit("3"); reveal_strlit("4"); reveal_strlit("5");
        reveal_strlit("6"); reveal_strlit("7"); reveal_strlit("8");
        reveal_strlit("9"); reveal_strlit("a"); reveal_strlit("b");
        reveal_strlit("c"); reveal_strlit("d"); reveal_strlit("e");
        reveal_strlit("f");
    }
    let r = match n {
        0 => "0", 1 => "1", 2 => "2", 3 => "3",
        4 => "4", 5 => "5", 6 => "6", 7 => "7",
        8 => "8", 9 => "9", 10 => "a", 11 => "b",
        12 => "c", 13 => "d", 14 => "e", _ => "f",
    };
    proof {
        assert(r@ =~= seq![hex_digit(n as int)]);
    }
    r
}

/// Encodes a byte string as lowercase hexadecimal, two digits per byte.
pub fn bytes_to_hex(bytes: &Vec<u8>) -> (r: String)
    ensures
        r@ == spec_hex(bytes@),
{
    let n = bytes.len();
    let mut out = String::new();
    let mut i: usize = 0;
    proof {
        assert(bytes@.subrange(0, n as int) =~= bytes@);
        assert(out@ + spec_hex(bytes@) =~= spec_hex(bytes@));
    }
    while i < n
        invariant
            n == bytes@.len(),
            0 <= i <= n,
            out@ + spec_hex(bytes@.subrange(i as int, n as int)) == spec_hex(bytes@),
        decreases n - i,
    {
        let b = bytes[i];
        let ghost prev = out@;
        out.append(hex_char_str(b / 16));
        out.append(hex_char_str(b % 16));
        proof {
            assert(bytes@.subrange(i as int, n as int).drop_first()
                =~= bytes@.subrange(i + 1, n as int));
            assert(out@ + spec_hex(bytes@.subrange(i + 1, n as int))
                =~= prev + spec_hex(bytes@.subrange(i as int, n as int)));
        }
        i = i + 1;
    }
    proof {
        assert(bytes@.subrange(n as int, n as int) =~= Seq::<u8>::empty());
        assert(out@ =~= out@ + spec_hex(bytes@.subrange(n as int, n as int)));
    }
    out
}

/// The outcome of checking one downloaded file: whether the computed
/// digest matched the declared one, and the computed digest itself for
/// diagnostics.
pub struct VerificationOutcome {
    pub matched: bool,
    pub actual_hex: String,
}

/// Computes the digest of the given file content and compares its
/// lowercase hexadecimal form to the declared checksum.
pub fn verify_bytes(data: &Vec<u8>, expected: &str) -> (r: VerificationOutcome)
    ensures
        r.matched == (spec_hex(md5_of(data@)) == expected@),
        r.actual_hex@ == spec_hex(md5_of(data@)),
{
    let digest = md5_digest(data);
    let actual_hex = bytes_to_hex(&digest);
    let matched = str_eq(actual_hex.as_str(), expected);
    VerificationOutcome { matched, actual_hex }
}

/// Whether the digest of the given file content matches the declared
/// checksum.
pub fn check_md5(data: &Vec<u8>, md5sum: &str) -> (r: bool)
    ensures
        r == (spec_hex(md5_of(data@)) == md5sum@),
{
    let outcome = verify_bytes(data, md5sum);
    outcome.matched
}

/// Verification is deterministic: the digest depends on the file content
/// alone, so hashing the same content twice yields the same digest and
/// the same hexadecimal form.
pub proof fn lemma_digest_deterministic(a: Seq<u8>, b: Seq<u8>)
    requires
        a == b,
    ensures
        md5_of(a) == md5_of(b),
        spec_hex(md5_of(a)) == spec_hex(md5_of(b)),
{
}

} // verus!
