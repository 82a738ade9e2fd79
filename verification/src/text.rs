//! # Text on the wire
//!
//! Identifiers, names, units and string values are stored as UTF-8. Bytes
//! that are no valid UTF-8 never make a decode fail: the text is cut at the
//! end of its longest valid prefix.
use vstd::prelude::*;
use vstd::string::StringSliceAdditionalSpecFns;
use vstd::utf8::{decode_utf8, encode_utf8, valid_utf8};

verus! {

/// `n` is the length of the longest prefix of `bytes` that is valid UTF-8.
pub open spec fn is_longest_valid_prefix(bytes: Seq<u8>, n: int) -> bool {
    &&& 0 <= n <= bytes.len()
    &&& valid_utf8(bytes.subrange(0, n))
    &&& forall|k: int| n < k <= bytes.len() ==> !valid_utf8(#[trigger] bytes.subrange(0, k))
}

/// The length of the longest prefix of `bytes` that is valid UTF-8.
pub open spec fn spec_valid_up_to(bytes: Seq<u8>) -> int {
    choose|n: int| is_longest_valid_prefix(bytes, n)
}

/// The text that `bytes` hold: their longest valid prefix, decoded.
pub open spec fn spec_lossy_text(bytes: Seq<u8>) -> Seq<char> {
    decode_utf8(bytes.subrange(0, spec_valid_up_to(bytes)))
}

/// There is only one longest valid prefix.
pub proof fn lemma_longest_valid_prefix_unique(bytes: Seq<u8>, n: int)
    requires
        is_longest_valid_prefix(bytes, n),
    ensures
        spec_valid_up_to(bytes) == n,
{
    let m = spec_valid_up_to(bytes);
    assert(is_longest_valid_prefix(bytes, m));
    if m < n {
        assert(!valid_utf8(bytes.subrange(0, n)));
    }
    if n < m {
        assert(!valid_utf8(bytes.subrange(0, m)));
    }
}

/// Valid UTF-8 is its own longest valid prefix.
pub proof fn lemma_valid_text_is_whole(bytes: Seq<u8>)
    requires
        valid_utf8(bytes),
    ensures
        spec_valid_up_to(bytes) == bytes.len(),
        spec_lossy_text(bytes) == decode_utf8(bytes),
{
    assert(bytes.subrange(0, bytes.len() as int) =~= bytes);
    lemma_longest_valid_prefix_unique(bytes, bytes.len() as int);
}

/// The text of the encoding of `chars` is `chars`.
pub proof fn lemma_lossy_text_of_encoding(chars: Seq<char>)
    ensures
        spec_lossy_text(encode_utf8(chars)) == chars,
{
    vstd::utf8::encode_utf8_valid_utf8(chars);
    vstd::utf8::encode_utf8_decode_utf8(chars);
    lemma_valid_text_is_whole(encode_utf8(chars));
}

/// `std::str::from_utf8`, with the place of the first invalid byte sequence
/// (`Utf8Error::valid_up_to`) in the error case.
///
/// Trusted: the call succeeds exactly on valid UTF-8 and then returns the
/// given bytes as text; otherwise the number it reports is the length of the
/// longest prefix that is valid UTF-8.
#[verifier::external_body]
fn checked_utf8<'a>(bytes: &'a [u8]) -> (r: Result<&'a str, usize>)
    ensures
        match r {
            Ok(s) => valid_utf8(bytes@) && s.spec_bytes() == bytes@,
            Err(n) => !valid_utf8(bytes@) && is_longest_valid_prefix(bytes@, n as int),
        },
{
    match std::str::from_utf8(bytes) {
        Ok(s) => Ok(s),
        Err(e) => Err(e.valid_up_to()),
    }
}

/// Decode `bytes` as text, dropping everything from the first invalid byte
/// sequence on.
pub fn lossy_text(bytes: &[u8]) -> (text: String)
    ensures
        text@ == spec_lossy_text(bytes@),
{
    match checked_utf8(bytes) {
        Ok(s) => {
            proof {
                lemma_valid_text_is_whole(bytes@);
                vstd::utf8::encode_utf8_decode_utf8(s@);
            }
            s.to_owned()
        },
        Err(n) => {
            let head = vstd::slice::slice_subrange(bytes, 0, n);
            proof {
                lemma_longest_valid_prefix_unique(bytes@, n as int);
            }
            match checked_utf8(head) {
                Ok(s) => {
                    proof {
                        vstd::utf8::encode_utf8_decode_utf8(s@);
                    }
                    s.to_owned()
                },
                Err(_) => {
                    proof {
                        assert(false);
                    }
                    String::new()
                },
            }
        },
    }
}

} // verus!
