//! # Truncated messages are incomplete, never malformed
//!
//! A reader that is fed by a stream sees the start of a message before it
//! sees its end. What it sees then must never look like damage: a part of a
//! valid message is *incomplete*, so that the reader waits for more bytes
//! and skips nothing.
//!
//! The headers have this property for any input: what is too short to hold
//! a header is incomplete, whatever it holds. The payload is only looked
//! at when the whole message is at hand.
use crate::filtering::FilterView;
use crate::header::StandardHeaderView;
use crate::message::MessageView;
use crate::parse::{
    is_text_len, lemma_text_len_unique, spec_dlt_extended_header, spec_dlt_message,
    spec_dlt_standard_header, spec_header_options, spec_maybe_ecu_id, spec_maybe_u32,
    spec_opt_extended_header, spec_validated_payload_length, spec_zero_terminated, ParseErrorKind,
    SpecParsed,
};
use vstd::prelude::*;

verus! {

/// Whether an outcome is that more bytes are needed.
pub open spec fn spec_is_incomplete<T>(r: SpecParsed<T>) -> bool {
    r is Err && r->Err_0 is Incomplete
}

/// A text field is read from any input that is as long as the field, and
/// the field is all that is taken from the input; any input that is shorter
/// is incomplete.
pub proof fn lemma_zero_terminated_total(s: Seq<u8>, size: nat)
    ensures
        s.len() < size ==> spec_is_incomplete(spec_zero_terminated(s, size)),
        s.len() >= size ==> spec_zero_terminated(s, size) is Ok && spec_zero_terminated(
            s,
            size,
        )->Ok_0.0 == s.subrange(size as int, s.len() as int),
{
    // the text at the start of `s` has a length, which is at most `size`
    // and at most the length of `s`
    let k = lemma_text_len_exists(s, size);
    lemma_text_len_unique(s, size, k);
}

/// The text at the start of any input has a length.
pub proof fn lemma_text_len_exists(s: Seq<u8>, limit: nat) -> (k: int)
    ensures
        is_text_len(s, limit, k),
    decreases limit,
{
    if limit == 0 {
        0
    } else {
        let k = lemma_text_len_exists(s, (limit - 1) as nat);
        if k == limit - 1 && k < s.len() && s[k] != 0 {
            k + 1
        } else {
            k
        }
    }
}

/// Number of bytes of the optional fields that a header type byte
/// announces.
pub open spec fn spec_options_length(header_type: u8) -> nat {
    ((if (header_type / 4) % 2 == 1 {
        4int
    } else {
        0int
    }) + (if (header_type / 8) % 2 == 1 {
        4int
    } else {
        0int
    }) + (if (header_type / 16) % 2 == 1 {
        4int
    } else {
        0int
    })) as nat
}

/// Any input that is too short for the optional fields of a standard header
/// is incomplete.
#[verifier::rlimit(40)]
pub proof fn lemma_short_options(s: Seq<u8>, header_type: u8)
    requires
        s.len() < spec_options_length(header_type),
    ensures
        spec_is_incomplete(spec_header_options(s, header_type)),
{
    let ecu = (header_type / 4) % 2 == 1;
    let session = (header_type / 8) % 2 == 1;
    let timestamp = (header_type / 16) % 2 == 1;
    lemma_zero_terminated_total(s, 4);
    match spec_maybe_ecu_id(s, ecu) {
        Err(_) => {},
        Ok((s1, _)) => {
            assert(s1.len() == s.len() - (if ecu {
                4int
            } else {
                0int
            }));
            match spec_maybe_u32(s1, session) {
                Err(_) => {},
                Ok((s2, _)) => {
                    assert(s2.len() == s1.len() - (if session {
                        4int
                    } else {
                        0int
                    }));
                },
            }
        },
    }
}

/// Any input that is too short for the standard header that its first byte
/// announces is incomplete.
#[verifier::rlimit(40)]
pub proof fn lemma_short_standard_header(s: Seq<u8>)
    requires
        s.len() >= 1 ==> s.len() < 4 + spec_options_length(s[0]),
    ensures
        spec_is_incomplete(spec_dlt_standard_header(s)),
{
    if s.len() >= 4 {
        let s3 = s.subrange(1, s.len() as int).subrange(1, s.len() - 1).subrange(2, s.len() - 2);
        lemma_short_options(s3, s[0]);
    }
}

/// Any input of less than ten bytes is incomplete as an extended header.
pub proof fn lemma_short_extended_header(s: Seq<u8>)
    requires
        s.len() < 10,
    ensures
        spec_is_incomplete(spec_dlt_extended_header(s)),
{
    if s.len() >= 2 {
        let s2 = s.subrange(1, s.len() as int).subrange(1, s.len() - 1);
        lemma_zero_terminated_total(s2, 4);
        if s2.len() >= 4 {
            lemma_zero_terminated_total(s2.subrange(4, s2.len() as int), 4);
        }
    }
}

impl StandardHeaderView {
    /// The header type byte of a valid header announces the optional fields
    /// that the header has.
    pub proof fn lemma_options_length(self)
        requires
            self.spec_valid(),
        ensures
            4 + spec_options_length(self.spec_header_type_byte()) == self.spec_own_length(),
            self.spec_bytes().len() == self.spec_own_length(),
            self.spec_bytes()[0] == self.spec_header_type_byte(),
    {
        self.lemma_header_type_byte();
        self.lemma_roundtrip(Seq::<u8>::empty());
    }
}

impl MessageView {
    /// Decoding any proper part of the bytes of a valid message, taken from
    /// their start, is incomplete: it is neither a message nor malformed.
    #[verifier::rlimit(40)]
    pub proof fn lemma_truncated(self, filter: Option<FilterView>, k: int)
        requires
            self.spec_valid(),
            0 < k < self.spec_bytes().len(),
        ensures
            spec_is_incomplete(
                spec_dlt_message(
                    self.spec_bytes().subrange(0, k),
                    filter,
                    self.storage_header is Some,
                ),
            ),
    {
        let part = self.spec_bytes().subrange(0, k);
        let storage = self.spec_storage_bytes();
        let message = self.spec_message_bytes();
        self.lemma_length();
        self.lemma_shape(Seq::<u8>::empty());
        assert(self.spec_bytes() =~= storage + message);
        if k < storage.len() {
            // the input ends inside the storage header
        } else {
            let after_storage = message.subrange(0, k - storage.len());
            assert(part =~= storage + after_storage);
            self.lemma_start(after_storage);
            self.lemma_truncated_message(after_storage);
        }
    }

    /// For any proper part of the bytes of a valid message without its
    /// storage header, either the standard header is incomplete, or it is
    /// read and tells that bytes are missing.
    #[verifier::rlimit(40)]
    pub proof fn lemma_truncated_message(self, after_storage: Seq<u8>)
        requires
            self.spec_valid(),
            after_storage.len() < self.spec_message_bytes().len(),
            after_storage == self.spec_message_bytes().subrange(0, after_storage.len() as int),
        ensures
            spec_is_incomplete(spec_dlt_standard_header(after_storage)) || (
            spec_dlt_standard_header(after_storage) is Ok && spec_dlt_standard_header(
                after_storage,
            )->Ok_0.1 == self.header && spec_is_incomplete_length(
                spec_validated_payload_length(self.header, after_storage.len()),
            )),
    {
        let header = self.header.spec_bytes();
        let extended = self.spec_extended_bytes();
        let payload = self.payload.spec_bytes(self.header.endianness);
        let message = self.spec_message_bytes();
        self.lemma_length();
        self.header.lemma_options_length();
        assert(message =~= header + (extended + payload));
        if after_storage.len() < header.len() {
            if after_storage.len() >= 1 {
                assert(after_storage[0] == message[0]);
            }
            lemma_short_standard_header(after_storage);
        } else {
            let after_header = (extended + payload).subrange(
                0,
                after_storage.len() - header.len(),
            );
            assert(after_storage =~= header + after_header);
            self.header.lemma_roundtrip(after_header);
        }
    }
}

/// Whether the length of a payload is not known yet because bytes are
/// missing.
pub open spec fn spec_is_incomplete_length(r: Result<u16, ParseErrorKind>) -> bool {
    r is Err && r->Err_0 is Incomplete
}

} // verus!
