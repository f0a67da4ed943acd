//! Digests of texts.

use vstd::prelude::*;
use vstd::utf8::*;
use crate::text::{byte_len, opt_text};

verus! {

/// The SHA-256 digest of a message.
pub uninterp spec fn sha256(message: Seq<u8>) -> Seq<u8>;

/// The number of bytes from which on the bits of a message cannot be counted
/// in 64 bits.
pub const MESSAGE_LIMIT: u64 = 0x2000_0000_0000_0000;

/// Computes a digest with `sha2::Sha256::digest`, which counts the bits of the
/// message in 64 bits.
///
/// Trusted: the digest depends on the message alone and has 32 bytes. Which
/// bytes they are is left unsaid.
#[verifier::external_body]
fn sha256_digest(message: &[u8]) -> (r: Vec<u8>)
    requires
        message@.len() < MESSAGE_LIMIT,
    ensures
        r@ == sha256(message@),
        r@.len() == 32,
{
    <sha2::Sha256 as sha2::Digest>::digest(message).to_vec()
}

/// The lower-case hexadecimal digit of a value below sixteen.
pub open spec fn hex_digit(v: u8) -> char {
    if v < 10 {
        (48 + v) as char
    } else {
        (87 + v) as char
    }
}

/// Two lower-case hexadecimal digits for each byte.
pub open spec fn hex(bytes: Seq<u8>) -> Seq<char>
    decreases bytes.len(),
{
    if bytes.len() == 0 {
        Seq::empty()
    } else {
        hex(bytes.drop_last()).push(hex_digit(bytes.last() / 16)).push(
            hex_digit(bytes.last() % 16),
        )
    }
}

fn hex_text(v: u8) -> (r: &'static str)
    requires
        v < 16,
    ensures
        r@ == seq![hex_digit(v)],
{
    let r = if v == 0 { "0" } else if v == 1 { "1" } else if v == 2 { "2" } else if v == 3 { "3" }
        else if v == 4 { "4" } else if v == 5 { "5" } else if v == 6 { "6" } else if v == 7 { "7" }
        else if v == 8 { "8" } else if v == 9 { "9" } else if v == 10 { "a" } else if v == 11 { "b" }
        else if v == 12 { "c" } else if v == 13 { "d" } else if v == 14 { "e" } else { "f" };
    proof {
        reveal_strlit("0");
        reveal_strlit("1");
        reveal_strlit("2");
        reveal_strlit("3");
        reveal_strlit("4");
        reveal_strlit("5");
        reveal_strlit("6");
        reveal_strlit("7");
        reveal_strlit("8");
        reveal_strlit("9");
        reveal_strlit("a");
        reveal_strlit("b");
        reveal_strlit("c");
        reveal_strlit("d");
        reveal_strlit("e");
        reveal_strlit("f");
        assert(r@ =~= seq![hex_digit(v)]);
    }
    r
}

/// Writes bytes in lower-case hexadecimal.
pub fn to_hex(bytes: &Vec<u8>) -> (r: String)
    ensures
        r@ == hex(bytes@),
{
    let mut r = String::new();
    assert(r@ =~= Seq::<char>::empty());
    assert(bytes@.take(0) =~= Seq::empty());
    let mut i: usize = 0;
    while i < bytes.len()
        invariant
            i <= bytes@.len(),
            r@ == hex(bytes@.take(i as int)),
        decreases bytes.len() - i,
    {
        let ghost before = r@;
        r = r.concat(hex_text(bytes[i] / 16)).concat(hex_text(bytes[i] % 16));
        proof {
            assert(bytes@.take(i + 1).drop_last() =~= bytes@.take(i as int));
            assert(r@ =~= before.push(hex_digit(bytes@[i as int] / 16)).push(
                hex_digit(bytes@[i as int] % 16),
            ));
        }
        i += 1;
    }
    assert(bytes@.take(i as int) =~= bytes@);
    r
}

proof fn lemma_hex_length(bytes: Seq<u8>)
    ensures
        hex(bytes).len() == 2 * bytes.len(),
    decreases bytes.len(),
{
    if bytes.len() > 0 {
        lemma_hex_length(bytes.drop_last());
    }
}

/// The digest of a text: the SHA-256 of its UTF-8 form, in hexadecimal.
pub open spec fn text_digest(text: Seq<char>) -> Seq<char> {
    hex(sha256(encode_utf8(text)))
}

/// Computes the digest of a text that is short enough to have one.
pub fn digest_text(text: &str) -> (r: Option<String>)
    ensures
        opt_text(r) == if byte_len(text@) < MESSAGE_LIMIT {
            Some(text_digest(text@))
        } else {
            None
        },
        r matches Some(digest) ==> digest@.len() == 64,
{
    let bytes = text.as_bytes();
    if (bytes.len() as u64) < MESSAGE_LIMIT {
        let digest = sha256_digest(bytes);
        proof {
            lemma_hex_length(digest@);
        }
        Some(to_hex(&digest))
    } else {
        None
    }
}

// ---------------------------------------------------------------
// Laws
// ---------------------------------------------------------------

/// Different bytes have different hexadecimal forms.
pub proof fn law_hex_forms_are_unique(a: Seq<u8>, b: Seq<u8>)
    requires
        hex(a) == hex(b),
    ensures
        a == b,
    decreases a.len(),
{
    lemma_hex_length(a);
    lemma_hex_length(b);
    if a.len() > 0 {
        let x = hex(a);
        let y = hex(b);
        let n = x.len() as int;
        assert(x[n - 1] == hex_digit(a.last() % 16) && x[n - 2] == hex_digit(a.last() / 16));
        assert(y[n - 1] == hex_digit(b.last() % 16) && y[n - 2] == hex_digit(b.last() / 16));
        assert(a.last() % 16 == b.last() % 16 && a.last() / 16 == b.last() / 16);
        assert(a.last() == b.last());
        assert(x.take(n - 2) =~= hex(a.drop_last()));
        assert(y.take(n - 2) =~= hex(b.drop_last()));
        law_hex_forms_are_unique(a.drop_last(), b.drop_last());
        assert(a =~= a.drop_last().push(a.last()));
        assert(b =~= b.drop_last().push(b.last()));
    } else {
        assert(a =~= b);
    }
}

/// True when two different messages have the same SHA-256 digest.
pub open spec fn collide(a: Seq<u8>, b: Seq<u8>) -> bool {
    a != b && sha256(a) == sha256(b)
}

/// Different texts have different digests, unless SHA-256 takes their UTF-8 forms
/// to the same digest.
pub proof fn law_digests_tell_texts_apart(a: Seq<char>, b: Seq<char>)
    requires
        text_digest(a) == text_digest(b),
    ensures
        a == b || collide(encode_utf8(a), encode_utf8(b)),
{
    law_hex_forms_are_unique(sha256(encode_utf8(a)), sha256(encode_utf8(b)));
    encode_utf8_decode_utf8(a);
    encode_utf8_decode_utf8(b);
}

/// The hexadecimal digits, in their order.
pub open spec fn hex_digits() -> Seq<char> {
    seq!['0', '1', '2', '3', '4', '5', '6', '7', '8', '9', 'a', 'b', 'c', 'd', 'e', 'f']
}

/// Each byte is written by two hexadecimal digits, the more significant one first,
/// in the order of the bytes.
pub proof fn law_bytes_are_written_in_order(bytes: Seq<u8>, i: int)
    requires
        0 <= i < bytes.len(),
    ensures
        hex(bytes).len() == 2 * bytes.len(),
        hex(bytes)[2 * i] == hex_digits()[bytes[i] as int / 16],
        hex(bytes)[2 * i + 1] == hex_digits()[bytes[i] as int % 16],
    decreases bytes.len(),
{
    lemma_hex_length(bytes);
    lemma_hex_length(bytes.drop_last());
    let h = hex(bytes.drop_last());
    if i < bytes.len() - 1 {
        law_bytes_are_written_in_order(bytes.drop_last(), i);
        assert(hex(bytes)[2 * i] == h[2 * i] && hex(bytes)[2 * i + 1] == h[2 * i + 1]);
    } else {
        assert(hex(bytes)[2 * i] == hex_digit(bytes[i] / 16));
        assert(hex(bytes)[2 * i + 1] == hex_digit(bytes[i] % 16));
    }
}

} // verus!
