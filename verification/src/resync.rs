//! # Finding and counting stored messages
//!
//! Stored messages start with the storage header pattern. After damage, a
//! reader finds the next message by searching the pattern; a counting tool
//! hops from message to message by the length field alone. This module
//! proves that both work on valid input: the search stops exactly behind
//! what is in front of the next message, and hopping over a row of stored
//! messages counts each of them once.
use crate::filtering::FilterView;
use crate::header::spec_dlt_pattern;
use crate::message::MessageView;
use crate::parse::{
    lemma_find_pattern_unique, spec_dlt_consume_msg, spec_dlt_message, spec_dlt_tag,
    spec_find_pattern, spec_is_first_occurrence, spec_message_start, spec_occurs_at,
    spec_skip_storage_header, spec_skip_till_after_next_storage_header, spec_tag, spec_version_tag,
    ParseErrorKind,
};
use vstd::prelude::*;

verus! {

/// Whether the storage header pattern stands nowhere in `bytes`.
pub open spec fn spec_without_pattern(bytes: Seq<u8>) -> bool {
    forall|j: int| !spec_occurs_at(bytes, spec_dlt_pattern(), j)
}

/// Where input starts with the pattern behind `garbage.len()` bytes that do
/// not hold the pattern, the first pattern of the input is the one behind
/// the garbage: the pattern cannot begin inside the garbage and end outside
/// of it.
pub proof fn lemma_pattern_after_garbage(garbage: Seq<u8>, tail: Seq<u8>)
    requires
        spec_without_pattern(garbage),
        spec_occurs_at(tail, spec_dlt_pattern(), 0),
    ensures
        spec_is_first_occurrence(garbage + tail, spec_dlt_pattern(), garbage.len() as int),
        spec_find_pattern(garbage + tail) == Some(garbage.len() as int),
{
    let s = garbage + tail;
    let p = spec_dlt_pattern();
    let g = garbage.len() as int;
    assert(s.subrange(g, g + 4) =~= tail.subrange(0, 4));
    assert forall|j: int| 0 <= j < g implies !spec_occurs_at(s, p, j) by {
        if spec_occurs_at(s, p, j) {
            if j + 4 <= g {
                assert(garbage.subrange(j, j + 4) =~= s.subrange(j, j + 4));
                assert(spec_occurs_at(garbage, p, j));
            } else {
                // the byte behind the garbage starts the pattern, and is
                // none of the later bytes of the pattern
                assert(s[g] == tail[0]);
                assert(tail[0] == tail.subrange(0, 4)[0]);
                assert(s[g] == s.subrange(j, j + 4)[g - j]);
            }
        }
    }
    lemma_find_pattern_unique(s, g);
}

/// Garbage without pattern in front of input that starts with the pattern
/// changes nothing of where the decoder starts: it finds the same storage
/// header, and the same bytes behind it.
pub proof fn lemma_start_after_garbage(garbage: Seq<u8>, tail: Seq<u8>)
    requires
        spec_without_pattern(garbage),
        spec_occurs_at(tail, spec_dlt_pattern(), 0),
        tail.len() >= 16,
    ensures
        spec_message_start(garbage + tail, true) == spec_message_start(tail, true),
{
    let s = garbage + tail;
    let g = garbage.len() as int;
    lemma_pattern_after_garbage(garbage, tail);
    lemma_find_pattern_unique(tail, 0);
    assert(s.subrange(g + 4, s.len() as int) =~= tail.subrange(4, tail.len() as int));
}

impl MessageView {
    /// The bytes of a valid stored message start with the pattern.
    pub proof fn lemma_starts_with_pattern(self, rest: Seq<u8>)
        requires
            self.spec_valid(),
            self.storage_header is Some,
        ensures
            spec_occurs_at(self.spec_bytes() + rest, spec_dlt_pattern(), 0),
            (self.spec_bytes() + rest).len() >= 16,
    {
        let header = self.storage_header->Some_0;
        header.lemma_roundtrip(Seq::<u8>::empty());
        assert((self.spec_bytes() + rest).subrange(0, 4) =~= spec_dlt_pattern());
    }

    /// For input that is made of garbage without pattern, a valid stored
    /// message and anything behind it, the search for the next storage
    /// header drops exactly the garbage, and decoding what is left gives the
    /// message. Decoding the input as it is gives the message as well, for
    /// the decoder searches the pattern itself.
    #[verifier::rlimit(40)]
    pub proof fn lemma_resync(self, garbage: Seq<u8>, filter: Option<FilterView>, rest: Seq<u8>)
        requires
            self.spec_valid(),
            self.storage_header is Some,
            spec_without_pattern(garbage),
        ensures
            spec_find_pattern(garbage + (self.spec_bytes() + rest)) == Some(garbage.len() as int),
            (garbage + (self.spec_bytes() + rest)).subrange(
                garbage.len() as int,
                (garbage + (self.spec_bytes() + rest)).len() as int,
            ) == self.spec_bytes() + rest,
            spec_dlt_message(self.spec_bytes() + rest, filter, true) == Ok::<_, ParseErrorKind>(
                (rest, self.spec_decoded(filter)),
            ),
            spec_dlt_message(garbage + (self.spec_bytes() + rest), filter, true) == Ok::<
                _,
                ParseErrorKind,
            >((rest, self.spec_decoded(filter))),
    {
        let tail = self.spec_bytes() + rest;
        let s = garbage + tail;
        let g = garbage.len() as int;
        self.lemma_starts_with_pattern(rest);
        lemma_pattern_after_garbage(garbage, tail);
        assert(s.subrange(g, s.len() as int) =~= tail);
        self.lemma_roundtrip(filter, rest);
        lemma_start_after_garbage(garbage, tail);
    }

    /// Moving past the storage header of a valid stored message leaves the
    /// message without its storage header.
    #[verifier::rlimit(40)]
    pub proof fn lemma_skip_storage_header(self, rest: Seq<u8>)
        requires
            self.spec_valid(),
            self.storage_header is Some,
        ensures
            spec_skip_storage_header(self.spec_bytes() + rest) == Ok::<_, ParseErrorKind>(
                (self.spec_message_bytes() + rest, 16u64),
            ),
    {
        let s = self.spec_bytes() + rest;
        let header = self.storage_header->Some_0;
        header.lemma_roundtrip(Seq::<u8>::empty());
        assert(s =~= header.spec_bytes() + (self.spec_message_bytes() + rest));
        assert(s.subrange(0, 4) =~= spec_dlt_pattern());
        assert forall|j: int| 0 <= j < 3 implies s[j] == spec_dlt_tag()[j] by {
            assert(s[j] == s.subrange(0, 4)[j]);
        }
        let s1 = s.subrange(3, s.len() as int);
        assert(s1[0] == s.subrange(0, 4)[3]);
        let s2 = s1.subrange(1, s1.len() as int);
        assert(s2.subrange(12, s2.len() as int) =~= self.spec_message_bytes() + rest);
        assert(spec_tag(s, spec_dlt_tag()) == Ok::<_, ParseErrorKind>((s1, ())));
        assert(spec_tag(s1, spec_version_tag()) == Ok::<_, ParseErrorKind>((s2, ())));
    }

    /// For input that is made of garbage without pattern, a valid stored
    /// message and anything behind it, moving past the next storage header
    /// takes the garbage and the sixteen bytes of the storage header.
    pub proof fn lemma_skip_till_after(self, garbage: Seq<u8>, rest: Seq<u8>)
        requires
            self.spec_valid(),
            self.storage_header is Some,
            spec_without_pattern(garbage),
            garbage.len() + 16 <= u64::MAX,
        ensures
            spec_skip_till_after_next_storage_header(garbage + (self.spec_bytes() + rest)) == Ok::<
                _,
                ParseErrorKind,
            >((self.spec_message_bytes() + rest, (garbage.len() + 16) as u64)),
    {
        self.lemma_resync(garbage, None, rest);
        self.lemma_skip_storage_header(rest);
    }

    /// Consuming a valid stored message in front of anything takes exactly
    /// the bytes of the message.
    #[verifier::rlimit(40)]
    pub proof fn lemma_consume(self, rest: Seq<u8>)
        requires
            self.spec_valid(),
            self.storage_header is Some,
        ensures
            spec_dlt_consume_msg(self.spec_bytes() + rest) == Ok::<_, ParseErrorKind>(
                (rest, Some(self.spec_bytes().len() as u64)),
            ),
            self.spec_bytes().len() >= 20,
    {
        let s1 = self.spec_message_bytes() + rest;
        self.lemma_skip_storage_header(rest);
        self.lemma_length();
        self.lemma_shape(rest);
        self.header.lemma_roundtrip(
            self.spec_extended_bytes() + (self.payload.spec_bytes(self.header.endianness) + rest),
        );
        assert(s1 =~= self.header.spec_bytes() + (self.spec_extended_bytes() + (
        self.payload.spec_bytes(self.header.endianness) + rest)));
        crate::inverse::lemma_take(self.spec_message_bytes(), rest);
        self.header.lemma_headers_length();
    }
}

/// The bytes of a row of messages.
pub open spec fn spec_stream_bytes(messages: Seq<MessageView>) -> Seq<u8>
    decreases messages.len(),
{
    if messages.len() == 0 {
        Seq::<u8>::empty()
    } else {
        messages[0].spec_bytes() + spec_stream_bytes(messages.drop_first())
    }
}

/// Whether every message is a valid message with storage header.
pub open spec fn spec_valid_stored(messages: Seq<MessageView>) -> bool {
    forall|i: int|
        0 <= i < messages.len() ==> (#[trigger] messages[i]).spec_valid()
            && messages[i].storage_header is Some
}

/// How often a message can be consumed from `s` until `s` is used up;
/// `None` if consuming fails on the way.
pub open spec fn spec_consumable(s: Seq<u8>) -> Option<nat>
    decreases s.len(),
{
    match spec_dlt_consume_msg(s) {
        Err(_) => None,
        Ok((_, None)) => Some(0),
        Ok((rest, Some(_))) => if rest.len() < s.len() {
            match spec_consumable(rest) {
                Some(n) => Some(n + 1),
                None => None,
            }
        } else {
            None
        },
    }
}

/// From the bytes of a row of valid stored messages, a message can be
/// consumed exactly as often as there are messages: then nothing is left,
/// and there is nothing more to consume.
pub proof fn lemma_count_messages(messages: Seq<MessageView>)
    requires
        spec_valid_stored(messages),
    ensures
        spec_consumable(spec_stream_bytes(messages)) == Some(messages.len()),
    decreases messages.len(),
{
    if messages.len() != 0 {
        let first = messages[0];
        let others = messages.drop_first();
        let rest = spec_stream_bytes(others);
        first.lemma_consume(rest);
        assert(spec_valid_stored(others)) by {
            assert forall|i: int| 0 <= i < others.len() implies (#[trigger] others[i]).spec_valid()
                && others[i].storage_header is Some by {
                assert(others[i] == messages[i + 1]);
            }
        }
        lemma_count_messages(others);
    }
}

} // verus!
