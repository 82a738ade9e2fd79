//! # Decoding of DLT messages
//!
//! Every decoder takes the bytes that are left and returns what it decoded
//! together with the bytes after it. Beside each decoder stands a spec
//! function of the same shape over `Seq<u8>`; the decoder's contract says
//! that it computes exactly that function.
//!
//! A decoder fails in one of three ways, see [`DltParseError`]. The
//! difference between *incomplete* (more bytes are needed, nothing is wrong
//! so far) and *malformed* (these bytes can never become a message) is what
//! resynchronisation on a damaged stream rests on.
use crate::argument::{Argument, ArgumentView, Value, ValueView};
use crate::dlt::{ControlType, Endianness, MessageType, TypeInfoKind};
use crate::filtering::{
    filtered_out, spec_filtered_out, spec_opt_filter, FilterView, ProcessedDltFilterConfig,
};
use crate::header::{
    calculate_all_headers_length, spec_all_headers_length, spec_dlt_pattern, DltTimeStamp,
    ExtendedHeader, ExtendedHeaderView, StandardHeader, StandardHeaderView, StorageHeader,
    StorageHeaderView,
};
use crate::message::{
    spec_chunk_info, spec_chunk_views, Message, MessageView, PayloadContent, PayloadContentView,
};
use crate::text::{lossy_text, spec_lossy_text};
use crate::verbose::{dlt_arguments, spec_argument_views, spec_arguments};
use crate::wire::{
    read_u128_at, read_u16_at, read_u32_at, read_u64_at, spec_u128_at, spec_u16_at, spec_u32_at,
    spec_u64_at,
};
use vstd::prelude::*;
use vstd::slice::slice_subrange;
use vstd::string::StringExecFns;

verus! {

/// DLT pattern at the start of a storage header.
pub const DLT_PATTERN: [u8; 4] = [0x44, 0x4C, 0x54, 0x01];

/// Errors that can happen during parsing.
#[derive(Debug, PartialEq, Eq)]
pub enum DltParseError {
    /// The stream is broken beyond repair: parsing has to stop.
    Unrecoverable(String),
    /// The bytes at this place are no message: skip some and try again.
    ParsingHickup(String),
    /// The input ended too early; `needed` is a lower bound of the number of
    /// bytes that are missing, where one is known.
    IncompleteParse { needed: Option<usize> },
}

/// What a parse error says, without its text.
pub enum ParseErrorKind {
    Unrecoverable,
    ParsingHickup,
    Incomplete(Option<nat>),
}

impl DltParseError {
    pub open spec fn kind(self) -> ParseErrorKind {
        match self {
            DltParseError::Unrecoverable(_) => ParseErrorKind::Unrecoverable,
            DltParseError::ParsingHickup(_) => ParseErrorKind::ParsingHickup,
            DltParseError::IncompleteParse { needed } => ParseErrorKind::Incomplete(
                match needed {
                    Some(n) => Some(n as nat),
                    None => None,
                },
            ),
        }
    }

    /// The description of the error: what kind of error it is, and the
    /// text that it holds.
    pub open spec fn spec_message(self) -> Seq<char> {
        match self {
            DltParseError::Unrecoverable(text) => "parsing stopped, cannot continue: "@ + text@,
            DltParseError::ParsingHickup(text) => "parsing error, try to continue: "@ + text@,
            DltParseError::IncompleteParse { .. } => "parsing could not complete"@,
        }
    }

    /// A human readable description of the error.
    pub fn message(&self) -> (description: String)
        ensures
            description@ == self.spec_message(),
    {
        match self {
            DltParseError::Unrecoverable(text) => {
                let mut m = "parsing stopped, cannot continue: ".to_owned();
                m.append(text.as_str());
                m
            },
            DltParseError::ParsingHickup(text) => {
                let mut m = "parsing error, try to continue: ".to_owned();
                m.append(text.as_str());
                m
            },
            DltParseError::IncompleteParse { .. } => "parsing could not complete".to_owned(),
        }
    }
}

/// The error for malformed input, which holds `text`.
fn hickup(text: &str) -> (e: DltParseError)
    ensures
        e is ParsingHickup,
        e->ParsingHickup_0@ == text@,
{
    DltParseError::ParsingHickup(text.to_owned())
}

/// The error for input that is `missing` bytes too short.
fn incomplete(missing: usize) -> (e: DltParseError)
    ensures
        e.kind() == ParseErrorKind::Incomplete(Some(missing as nat)),
{
    DltParseError::IncompleteParse { needed: Some(missing) }
}

/// The outcome of a spec level decoder: the bytes left and the value.
pub type SpecParsed<T> = Result<(Seq<u8>, T), ParseErrorKind>;

/// Split off the first `n` bytes.
pub open spec fn spec_take(s: Seq<u8>, n: nat) -> SpecParsed<Seq<u8>> {
    if s.len() < n {
        Err(ParseErrorKind::Incomplete(Some((n - s.len()) as nat)))
    } else {
        Ok((s.subrange(n as int, s.len() as int), s.subrange(0, n as int)))
    }
}

pub open spec fn spec_parse_u8(s: Seq<u8>) -> SpecParsed<u8> {
    if s.len() < 1 {
        Err(ParseErrorKind::Incomplete(Some(1)))
    } else {
        Ok((s.subrange(1, s.len() as int), s[0]))
    }
}

pub open spec fn spec_parse_u16(s: Seq<u8>, e: Endianness) -> SpecParsed<u16> {
    if s.len() < 2 {
        Err(ParseErrorKind::Incomplete(Some((2 - s.len()) as nat)))
    } else {
        Ok((s.subrange(2, s.len() as int), spec_u16_at(s, 0, e)))
    }
}

pub open spec fn spec_parse_u32(s: Seq<u8>, e: Endianness) -> SpecParsed<u32> {
    if s.len() < 4 {
        Err(ParseErrorKind::Incomplete(Some((4 - s.len()) as nat)))
    } else {
        Ok((s.subrange(4, s.len() as int), spec_u32_at(s, 0, e)))
    }
}

pub open spec fn spec_parse_u64(s: Seq<u8>, e: Endianness) -> SpecParsed<u64> {
    if s.len() < 8 {
        Err(ParseErrorKind::Incomplete(Some((8 - s.len()) as nat)))
    } else {
        Ok((s.subrange(8, s.len() as int), spec_u64_at(s, 0, e)))
    }
}

pub open spec fn spec_parse_u128(s: Seq<u8>, e: Endianness) -> SpecParsed<u128> {
    if s.len() < 16 {
        Err(ParseErrorKind::Incomplete(Some((16 - s.len()) as nat)))
    } else {
        Ok((s.subrange(16, s.len() as int), spec_u128_at(s, 0, e)))
    }
}

/// Split off the first `n` bytes.
pub fn take<'a>(input: &'a [u8], n: usize) -> (r: Result<(&'a [u8], &'a [u8]), DltParseError>)
    ensures
        match r {
            Ok((rest, taken)) => spec_take(input@, n as nat) == Ok::<_, ParseErrorKind>(
                (rest@, taken@),
            ),
            Err(e) => spec_take(input@, n as nat) == Err::<(Seq<u8>, Seq<u8>), _>(e.kind()),
        },
{
    if input.len() < n {
        Err(incomplete(n - input.len()))
    } else {
        Ok((slice_subrange(input, n, input.len()), slice_subrange(input, 0, n)))
    }
}

pub fn parse_u8<'a>(input: &'a [u8]) -> (r: Result<(&'a [u8], u8), DltParseError>)
    ensures
        match r {
            Ok((rest, v)) => spec_parse_u8(input@) == Ok::<_, ParseErrorKind>((rest@, v)),
            Err(e) => spec_parse_u8(input@) == Err::<(Seq<u8>, u8), _>(e.kind()),
        },
{
    if input.len() < 1 {
        Err(incomplete(1))
    } else {
        Ok((slice_subrange(input, 1, input.len()), input[0]))
    }
}

pub fn parse_u16<'a>(input: &'a [u8], e: Endianness) -> (r: Result<
    (&'a [u8], u16),
    DltParseError,
>)
    ensures
        match r {
            Ok((rest, v)) => spec_parse_u16(input@, e) == Ok::<_, ParseErrorKind>((rest@, v)),
            Err(err) => spec_parse_u16(input@, e) == Err::<(Seq<u8>, u16), _>(err.kind()),
        },
{
    if input.len() < 2 {
        Err(incomplete(2 - input.len()))
    } else {
        Ok((slice_subrange(input, 2, input.len()), read_u16_at(input, 0, e)))
    }
}

pub fn parse_u32<'a>(input: &'a [u8], e: Endianness) -> (r: Result<
    (&'a [u8], u32),
    DltParseError,
>)
    ensures
        match r {
            Ok((rest, v)) => spec_parse_u32(input@, e) == Ok::<_, ParseErrorKind>((rest@, v)),
            Err(err) => spec_parse_u32(input@, e) == Err::<(Seq<u8>, u32), _>(err.kind()),
        },
{
    if input.len() < 4 {
        Err(incomplete(4 - input.len()))
    } else {
        Ok((slice_subrange(input, 4, input.len()), read_u32_at(input, 0, e)))
    }
}

pub fn parse_u64<'a>(input: &'a [u8], e: Endianness) -> (r: Result<
    (&'a [u8], u64),
    DltParseError,
>)
    ensures
        match r {
            Ok((rest, v)) => spec_parse_u64(input@, e) == Ok::<_, ParseErrorKind>((rest@, v)),
            Err(err) => spec_parse_u64(input@, e) == Err::<(Seq<u8>, u64), _>(err.kind()),
        },
{
    if input.len() < 8 {
        Err(incomplete(8 - input.len()))
    } else {
        Ok((slice_subrange(input, 8, input.len()), read_u64_at(input, 0, e)))
    }
}

pub fn parse_u128<'a>(input: &'a [u8], e: Endianness) -> (r: Result<
    (&'a [u8], u128),
    DltParseError,
>)
    ensures
        match r {
            Ok((rest, v)) => spec_parse_u128(input@, e) == Ok::<_, ParseErrorKind>((rest@, v)),
            Err(err) => spec_parse_u128(input@, e) == Err::<(Seq<u8>, u128), _>(err.kind()),
        },
{
    if input.len() < 16 {
        Err(incomplete(16 - input.len()))
    } else {
        Ok((slice_subrange(input, 16, input.len()), read_u128_at(input, 0, e)))
    }
}

/// `k` is the length of the text at the start of `s`: the text ends before
/// the first zero byte, after `limit` bytes or with `s`, whichever is
/// first.
pub open spec fn is_text_len(s: Seq<u8>, limit: nat, k: int) -> bool {
    &&& 0 <= k <= limit
    &&& k <= s.len()
    &&& forall|j: int| 0 <= j < k ==> s[j] != 0
    &&& (k == limit || k == s.len() || s[k] == 0)
}

/// The length of the text at the start of `s`, see [`is_text_len`].
pub open spec fn spec_text_len(s: Seq<u8>, limit: nat) -> int {
    choose|k: int| is_text_len(s, limit, k)
}

/// The text at the start of `s` has only one length.
pub proof fn lemma_text_len_unique(s: Seq<u8>, limit: nat, k: int)
    requires
        is_text_len(s, limit, k),
    ensures
        spec_text_len(s, limit) == k,
{
    let m = spec_text_len(s, limit);
    assert(is_text_len(s, limit, m));
    if m < k {
        assert(s[m] != 0);
    }
    if k < m {
        assert(s[k] != 0);
    }
}

/// A text field of `size` bytes: the text ends at the first zero byte, the
/// rest of the field is padding. All `size` bytes are consumed. Where the
/// input ends inside the text the outcome is incomplete by one byte, where
/// it ends inside the padding by the number of bytes that are missing.
pub open spec fn spec_zero_terminated(s: Seq<u8>, size: nat) -> SpecParsed<Seq<char>> {
    let k = spec_text_len(s, size);
    if k < size && k == s.len() {
        Err(ParseErrorKind::Incomplete(Some(1)))
    } else if s.len() < size {
        Err(ParseErrorKind::Incomplete(Some((size - s.len()) as nat)))
    } else {
        Ok((s.subrange(size as int, s.len() as int), spec_lossy_text(s.subrange(0, k))))
    }
}

/// Length of the text at the start of `input`, at most `limit`.
fn text_len(input: &[u8], limit: usize) -> (k: usize)
    ensures
        is_text_len(input@, limit as nat, k as int),
        k as int == spec_text_len(input@, limit as nat),
{
    let mut k: usize = 0;
    while k < limit && k < input.len() && input[k] != 0
        invariant
            k <= limit,
            k <= input@.len(),
            forall|j: int| 0 <= j < k ==> input@[j] != 0,
        decreases input@.len() - k,
    {
        k += 1;
    }
    proof {
        lemma_text_len_unique(input@, limit as nat, k as int);
    }
    k
}

/// Extracts the string in a byte sequence up to the `\0` termination
/// character.
///
/// In various places within a DLT message there are text fields of a known
/// size that are terminated and filled up with `\0`.
pub fn dlt_zero_terminated_string<'a>(input: &'a [u8], size: usize) -> (r: Result<
    (&'a [u8], String),
    DltParseError,
>)
    ensures
        match r {
            Ok((rest, text)) => spec_zero_terminated(input@, size as nat) == Ok::<
                _,
                ParseErrorKind,
            >((rest@, text@)),
            Err(e) => spec_zero_terminated(input@, size as nat) == Err::<(Seq<u8>, Seq<char>), _>(
                e.kind(),
            ),
        },
{
    let k = text_len(input, size);
    if k < size && k == input.len() {
        Err(incomplete(1))
    } else if input.len() < size {
        Err(incomplete(size - input.len()))
    } else {
        let text = lossy_text(slice_subrange(input, 0, k));
        Ok((slice_subrange(input, size, input.len()), text))
    }
}

/// An identifier: a text field of four bytes.
pub open spec fn spec_parse_ecu_id(s: Seq<u8>) -> SpecParsed<Seq<char>> {
    spec_zero_terminated(s, 4)
}

pub fn parse_ecu_id<'a>(input: &'a [u8]) -> (r: Result<(&'a [u8], String), DltParseError>)
    ensures
        match r {
            Ok((rest, text)) => spec_parse_ecu_id(input@) == Ok::<_, ParseErrorKind>(
                (rest@, text@),
            ),
            Err(e) => spec_parse_ecu_id(input@) == Err::<(Seq<u8>, Seq<char>), _>(e.kind()),
        },
{
    dlt_zero_terminated_string(input, 4)
}

/// `needle` stands in `hay` at index `i`.
pub open spec fn spec_occurs_at(hay: Seq<u8>, needle: Seq<u8>, i: int) -> bool {
    &&& 0 <= i
    &&& i + needle.len() <= hay.len()
    &&& hay.subrange(i, i + needle.len()) == needle
}

/// `needle` stands in `hay` at index `i` and nowhere before.
pub open spec fn spec_is_first_occurrence(hay: Seq<u8>, needle: Seq<u8>, i: int) -> bool {
    &&& spec_occurs_at(hay, needle, i)
    &&& forall|j: int| 0 <= j < i ==> !spec_occurs_at(hay, needle, j)
}

/// The index of the first storage header pattern in `s`.
pub open spec fn spec_find_pattern(s: Seq<u8>) -> Option<int> {
    if exists|i: int| spec_is_first_occurrence(s, spec_dlt_pattern(), i) {
        Some(choose|i: int| spec_is_first_occurrence(s, spec_dlt_pattern(), i))
    } else {
        None
    }
}

/// The first occurrence is the only first occurrence.
pub proof fn lemma_find_pattern_unique(s: Seq<u8>, i: int)
    requires
        spec_is_first_occurrence(s, spec_dlt_pattern(), i),
    ensures
        spec_find_pattern(s) == Some(i),
{
    let p = spec_dlt_pattern();
    let c = choose|c: int| spec_is_first_occurrence(s, p, c);
    assert(spec_is_first_occurrence(s, p, c));
    if c < i {
        assert(!spec_occurs_at(s, p, c));
    }
    if i < c {
        assert(!spec_occurs_at(s, p, i));
    }
}

/// `memchr::memmem::find`.
///
/// Trusted: the result is the index of the first occurrence of `needle` in
/// `hay`, and `None` exactly where `needle` does not occur.
#[verifier::external_body]
fn find_first(hay: &[u8], needle: &[u8]) -> (r: Option<usize>)
    ensures
        match r {
            Some(i) => spec_is_first_occurrence(hay@, needle@, i as int),
            None => forall|j: int| !spec_occurs_at(hay@, needle@, j),
        },
{
    memchr::memmem::find(hay, needle)
}

/// Skips ahead in the input up to the next storage header.
///
/// Returns the number of dropped bytes along with the remaining bytes, which
/// start with the pattern. If no storage header can be found, `None` is
/// returned. Nothing is skipped if the input already begins with a storage
/// header.
pub fn forward_to_next_storage_header<'a>(input: &'a [u8]) -> (r: Option<(u64, &'a [u8])>)
    ensures
        match r {
            Some((dropped, rest)) => {
                &&& spec_find_pattern(input@) == Some(dropped as int)
                &&& spec_is_first_occurrence(input@, spec_dlt_pattern(), dropped as int)
                &&& rest@ == input@.subrange(dropped as int, input@.len() as int)
            },
            None => spec_find_pattern(input@) is None,
        },
{
    let pattern = DLT_PATTERN;
    assert(pattern@ =~= spec_dlt_pattern());
    match find_first(input, pattern.as_slice()) {
        Some(to_drop) => {
            proof {
                lemma_find_pattern_unique(input@, to_drop as int);
            }
            Some((to_drop as u64, slice_subrange(input, to_drop, input.len())))
        },
        None => None,
    }
}

/// The bytes after `tag`, where `s` starts with `tag`. Input that differs
/// from `tag` is malformed; input that ends inside `tag` is incomplete.
pub open spec fn spec_tag(s: Seq<u8>, tag: Seq<u8>) -> SpecParsed<()> {
    if exists|j: int| 0 <= j < s.len() && j < tag.len() && s[j] != tag[j] {
        Err(ParseErrorKind::ParsingHickup)
    } else if s.len() < tag.len() {
        Err(ParseErrorKind::Incomplete(Some((tag.len() - s.len()) as nat)))
    } else {
        Ok((s.subrange(tag.len() as int, s.len() as int), ()))
    }
}

fn tag<'a>(input: &'a [u8], expected: &[u8]) -> (r: Result<&'a [u8], DltParseError>)
    ensures
        match r {
            Ok(rest) => spec_tag(input@, expected@) == Ok::<_, ParseErrorKind>((rest@, ())),
            Err(e) => spec_tag(input@, expected@) == Err::<(Seq<u8>, ()), _>(e.kind()),
        },
{
    let mut j: usize = 0;
    while j < input.len() && j < expected.len()
        invariant
            j <= input@.len(),
            j <= expected@.len(),
            forall|i: int| 0 <= i < j ==> input@[i] == expected@[i],
        decreases expected@.len() - j,
    {
        if input[j] != expected[j] {
            return Err(hickup("did not match DLT pattern"));
        }
        j += 1;
    }
    if input.len() < expected.len() {
        Err(incomplete(expected.len() - input.len()))
    } else {
        Ok(slice_subrange(input, expected.len(), input.len()))
    }
}

/// The first three bytes of the storage header pattern.
pub open spec fn spec_dlt_tag() -> Seq<u8> {
    seq![0x44u8, 0x4Cu8, 0x54u8]
}

/// The last byte of the storage header pattern.
pub open spec fn spec_version_tag() -> Seq<u8> {
    seq![0x01u8]
}

/// A storage header at the very start of `s`, of which only the pattern is
/// looked at: the outcome is the input after the sixteen bytes of the
/// header, and the number sixteen.
pub open spec fn spec_skip_storage_header(s: Seq<u8>) -> SpecParsed<u64> {
    match spec_tag(s, spec_dlt_tag()) {
        Err(e) => Err(e),
        Ok((s1, _)) => match spec_tag(s1, spec_version_tag()) {
            Err(e) => Err(e),
            Ok((s2, _)) => match spec_take(s2, 12) {
                Err(e) => Err(e),
                Ok((s3, _)) => Ok((s3, 16u64)),
            },
        },
    }
}

/// Remove the storage header from the input if present.
pub fn skip_storage_header<'a>(input: &'a [u8]) -> (r: Result<(&'a [u8], u64), DltParseError>)
    ensures
        match r {
            Ok((rest, n)) => spec_skip_storage_header(input@) == Ok::<_, ParseErrorKind>(
                (rest@, n),
            ),
            Err(e) => spec_skip_storage_header(input@) == Err::<(Seq<u8>, u64), _>(e.kind()),
        },
{
    let dlt: [u8; 3] = [0x44, 0x4C, 0x54];
    let version: [u8; 1] = [0x01];
    assert(dlt@ =~= spec_dlt_tag());
    assert(version@ =~= spec_version_tag());
    let s1 = tag(input, dlt.as_slice())?;
    let s2 = tag(s1, version.as_slice())?;
    let (s3, _) = take(s2, 12)?;
    Ok((s3, 16))
}

/// The storage header that the next pattern in `s` starts, together with
/// the number of bytes in front of the pattern. Less than sixteen bytes are
/// never looked at. Where `s` holds no pattern the outcome is no header and
/// no rest.
pub open spec fn spec_dlt_storage_header(s: Seq<u8>) -> SpecParsed<Option<(StorageHeaderView, nat)>> {
    if s.len() < 16 {
        Err(ParseErrorKind::Incomplete(None))
    } else {
        match spec_find_pattern(s) {
            None => Ok((Seq::<u8>::empty(), None)),
            Some(dropped) => {
                let s1 = s.subrange(dropped + 4, s.len() as int);
                match spec_parse_u32(s1, Endianness::Little) {
                    Err(e) => Err(e),
                    Ok((s2, seconds)) => match spec_parse_u32(s2, Endianness::Little) {
                        Err(e) => Err(e),
                        Ok((s3, microseconds)) => match spec_zero_terminated(s3, 4) {
                            Err(e) => Err(e),
                            Ok((s4, ecu_id)) => Ok(
                                (
                                    s4,
                                    Some(
                                        (
                                            StorageHeaderView {
                                                timestamp: DltTimeStamp { seconds, microseconds },
                                                ecu_id,
                                            },
                                            dropped as nat,
                                        ),
                                    ),
                                ),
                            ),
                        },
                    },
                }
            },
        }
    }
}

/// Mathematical value of what [`dlt_storage_header`] returns.
pub open spec fn spec_found_storage(found: Option<(StorageHeader, u64)>) -> Option<
    (StorageHeaderView, nat),
> {
    match found {
        Some((h, n)) => Some((h@, n as nat)),
        None => None,
    }
}

/// Parse the next DLT storage header.
///
/// Moves along the content until it finds a storage header; the number of
/// bytes that were skipped on the way is the second part of the result.
pub fn dlt_storage_header<'a>(input: &'a [u8]) -> (r: Result<
    (&'a [u8], Option<(StorageHeader, u64)>),
    DltParseError,
>)
    ensures
        match r {
            Ok((rest, found)) => spec_dlt_storage_header(input@) == Ok::<_, ParseErrorKind>(
                (rest@, spec_found_storage(found)),
            ),
            Err(e) => spec_dlt_storage_header(input@) == Err::<
                (Seq<u8>, Option<(StorageHeaderView, nat)>),
                _,
            >(e.kind()),
        },
{
    if input.len() < 16 {
        return Err(DltParseError::IncompleteParse { needed: None });
    }
    match forward_to_next_storage_header(input) {
        Some((consumed, rest)) => {
            let s1 = slice_subrange(rest, 4, rest.len());
            assert(s1@ =~= input@.subrange(consumed as int + 4, input@.len() as int));
            let (s2, seconds) = parse_u32(s1, Endianness::Little)?;
            let (s3, microseconds) = parse_u32(s2, Endianness::Little)?;
            let (s4, ecu_id) = dlt_zero_terminated_string(s3, 4)?;
            Ok(
                (
                    s4,
                    Some(
                        (
                            StorageHeader {
                                timestamp: DltTimeStamp { seconds, microseconds },
                                ecu_id,
                            },
                            consumed,
                        ),
                    ),
                ),
            )
        },
        None => {
            let rest = slice_subrange(input, input.len(), input.len());
            assert(rest@ =~= Seq::<u8>::empty());
            Ok((rest, None))
        },
    }
}

/// An identifier that is there only where `present` holds.
pub open spec fn spec_maybe_ecu_id(s: Seq<u8>, present: bool) -> SpecParsed<Option<Seq<char>>> {
    if present {
        match spec_parse_ecu_id(s) {
            Err(e) => Err(e),
            Ok((rest, id)) => Ok((rest, Some(id))),
        }
    } else {
        Ok((s, None))
    }
}

/// A big endian 32 bit number that is there only where `present` holds.
pub open spec fn spec_maybe_u32(s: Seq<u8>, present: bool) -> SpecParsed<Option<u32>> {
    if present {
        match spec_parse_u32(s, Endianness::Big) {
            Err(e) => Err(e),
            Ok((rest, v)) => Ok((rest, Some(v))),
        }
    } else {
        Ok((s, None))
    }
}

fn maybe_parse_ecu_id<'a>(input: &'a [u8], present: bool) -> (r: Result<
    (&'a [u8], Option<String>),
    DltParseError,
>)
    ensures
        match r {
            Ok((rest, id)) => spec_maybe_ecu_id(input@, present) == Ok::<_, ParseErrorKind>(
                (rest@, crate::header::spec_opt_text(id)),
            ),
            Err(e) => spec_maybe_ecu_id(input@, present) == Err::<(Seq<u8>, Option<Seq<char>>), _>(
                e.kind(),
            ),
        },
{
    if present {
        let (rest, id) = parse_ecu_id(input)?;
        Ok((rest, Some(id)))
    } else {
        Ok((input, None))
    }
}

fn maybe_parse_u32<'a>(input: &'a [u8], present: bool) -> (r: Result<
    (&'a [u8], Option<u32>),
    DltParseError,
>)
    ensures
        match r {
            Ok((rest, v)) => spec_maybe_u32(input@, present) == Ok::<_, ParseErrorKind>(
                (rest@, v),
            ),
            Err(e) => spec_maybe_u32(input@, present) == Err::<(Seq<u8>, Option<u32>), _>(
                e.kind(),
            ),
        },
{
    if present {
        let (rest, v) = parse_u32(input, Endianness::Big)?;
        Ok((rest, Some(v)))
    } else {
        Ok((input, None))
    }
}

/// The standard header at the start of `s`.
///
/// The header type byte decides which of the optional fields are read. A
/// length field that is smaller than the length of the headers themselves
/// makes the input malformed; this is found only after all fields of the
/// header were read.
pub open spec fn spec_dlt_standard_header(s: Seq<u8>) -> SpecParsed<StandardHeaderView> {
    match spec_parse_u8(s) {
        Err(e) => Err(e),
        Ok((s1, header_type)) => match spec_parse_u8(s1) {
            Err(e) => Err(e),
            Ok((s2, message_counter)) => match spec_parse_u16(s2, Endianness::Big) {
                Err(e) => Err(e),
                Ok((s3, overall_length)) => match spec_header_options(s3, header_type) {
                    Err(e) => Err(e),
                    Ok((s4, options)) => match spec_header_of(
                        header_type,
                        message_counter,
                        overall_length,
                        options,
                    ) {
                        Err(e) => Err(e),
                        Ok(header) => Ok((s4, header)),
                    },
                },
            },
        },
    }
}

/// The optional fields of a standard header, as its first byte announces
/// them: the ECU id, the session id and the timestamp.
pub open spec fn spec_header_options(s: Seq<u8>, header_type: u8) -> SpecParsed<
    (Option<Seq<char>>, Option<u32>, Option<u32>),
> {
    match spec_maybe_ecu_id(s, (header_type / 4) % 2 == 1) {
        Err(e) => Err(e),
        Ok((s1, ecu_id)) => match spec_maybe_u32(s1, (header_type / 8) % 2 == 1) {
            Err(e) => Err(e),
            Ok((s2, session_id)) => match spec_maybe_u32(s2, (header_type / 16) % 2 == 1) {
                Err(e) => Err(e),
                Ok((s3, timestamp)) => Ok((s3, (ecu_id, session_id, timestamp))),
            },
        },
    }
}

/// The standard header that the fields of the wire format make. A length
/// field that does not cover the headers is malformed.
pub open spec fn spec_header_of(
    header_type: u8,
    message_counter: u8,
    overall_length: u16,
    options: (Option<Seq<char>>, Option<u32>, Option<u32>),
) -> Result<StandardHeaderView, ParseErrorKind> {
    if spec_all_headers_length(header_type) > overall_length {
        Err(ParseErrorKind::ParsingHickup)
    } else {
        Ok(
            StandardHeaderView {
                version: header_type / 32,
                endianness: if (header_type / 2) % 2 == 1 {
                    Endianness::Big
                } else {
                    Endianness::Little
                },
                has_extended_header: header_type % 2 == 1,
                message_counter,
                ecu_id: options.0,
                session_id: options.1,
                timestamp: options.2,
                payload_length: (overall_length - spec_all_headers_length(header_type)) as u16,
            },
        )
    }
}

/// The standard header is part of every DLT message; all its numbers are
/// big endian.
#[verifier::rlimit(40)]
pub fn dlt_standard_header<'a>(input: &'a [u8]) -> (r: Result<
    (&'a [u8], StandardHeader),
    DltParseError,
>)
    ensures
        match r {
            Ok((rest, header)) => {
                &&& spec_dlt_standard_header(input@) == Ok::<_, ParseErrorKind>((rest@, header@))
                &&& header@.spec_overall_length() <= u16::MAX
            },
            Err(e) => spec_dlt_standard_header(input@) == Err::<(Seq<u8>, StandardHeaderView), _>(
                e.kind(),
            ),
        },
{
    let (s1, header_type) = parse_u8(input)?;
    let (s2, message_counter) = parse_u8(s1)?;
    let (s3, overall_length) = parse_u16(s2, Endianness::Big)?;
    let (s4, ecu_id) = maybe_parse_ecu_id(s3, (header_type / 4) % 2 == 1)?;
    let (s5, session_id) = maybe_parse_u32(s4, (header_type / 8) % 2 == 1)?;
    let (s6, timestamp) = maybe_parse_u32(s5, (header_type / 16) % 2 == 1)?;
    let all_headers_length = calculate_all_headers_length(header_type);
    if all_headers_length > overall_length {
        return Err(hickup("Header indicates wrong message length"));
    }
    let header = StandardHeader::new(
        header_type / 32,
        if (header_type / 2) % 2 == 1 {
            Endianness::Big
        } else {
            Endianness::Little
        },
        message_counter,
        header_type % 2 == 1,
        overall_length - all_headers_length,
        ecu_id,
        session_id,
        timestamp,
    );
    proof {
        lemma_header_type_byte_decoded(header_type, header@);
    }
    Ok((s6, header))
}

/// The flags and the version that were read off a header type byte make up
/// that byte again.
#[verifier::rlimit(40)]
proof fn lemma_header_type_byte_decoded(header_type: u8, header: StandardHeaderView)
    requires
        header.version == header_type / 32,
        header.has_extended_header == (header_type % 2 == 1),
        (header.endianness == Endianness::Big) == ((header_type / 2) % 2 == 1),
        (header.ecu_id is Some) == ((header_type / 4) % 2 == 1),
        (header.session_id is Some) == ((header_type / 8) % 2 == 1),
        (header.timestamp is Some) == ((header_type / 16) % 2 == 1),
    ensures
        header.spec_header_type_byte() == header_type,
{
    let b = header_type;
    assert(b == (b / 32) * 32 + ((b / 16) % 2) * 16 + ((b / 8) % 2) * 8 + ((b / 4) % 2) * 4 + ((b
        / 2) % 2) * 2 + b % 2) by (bit_vector);
    assert((b / 32) % 8 == b / 32) by (bit_vector);
}

/// The extended header at the start of `s`.
pub open spec fn spec_dlt_extended_header(s: Seq<u8>) -> SpecParsed<ExtendedHeaderView> {
    match spec_parse_u8(s) {
        Err(e) => Err(e),
        Ok((s1, message_info)) => match spec_parse_u8(s1) {
            Err(e) => Err(e),
            Ok((s2, argument_count)) => match spec_parse_ecu_id(s2) {
                Err(e) => Err(e),
                Ok((s3, application_id)) => match spec_parse_ecu_id(s3) {
                    Err(e) => Err(e),
                    Ok((s4, context_id)) => Ok(
                        (
                            s4,
                            ExtendedHeaderView {
                                verbose: message_info % 2 == 1,
                                argument_count,
                                message_type: MessageType::spec_from_msin(message_info),
                                application_id,
                                context_id,
                            },
                        ),
                    ),
                },
            },
        },
    }
}

pub fn dlt_extended_header<'a>(input: &'a [u8]) -> (r: Result<
    (&'a [u8], ExtendedHeader),
    DltParseError,
>)
    ensures
        match r {
            Ok((rest, header)) => spec_dlt_extended_header(input@) == Ok::<_, ParseErrorKind>(
                (rest@, header@),
            ),
            Err(e) => spec_dlt_extended_header(input@) == Err::<(Seq<u8>, ExtendedHeaderView), _>(
                e.kind(),
            ),
        },
{
    let (s1, message_info) = parse_u8(input)?;
    let (s2, argument_count) = parse_u8(s1)?;
    let (s3, application_id) = parse_ecu_id(s2)?;
    let (s4, context_id) = parse_ecu_id(s3)?;
    Ok(
        (
            s4,
            ExtendedHeader {
                verbose: message_info % 2 == 1,
                argument_count,
                message_type: MessageType::from_msin(message_info),
                application_id,
                context_id,
            },
        ),
    )
}

/// The length of the payload of a message with this header, of which
/// `remaining` bytes are at hand, counted from the start of the standard
/// header: the message is incomplete by the number of bytes that are
/// missing.
pub open spec fn spec_validated_payload_length(header: StandardHeaderView, remaining: nat) -> Result<
    u16,
    ParseErrorKind,
> {
    if header.spec_overall_length() > remaining {
        Err(ParseErrorKind::Incomplete(Some((header.spec_overall_length() - remaining) as nat)))
    } else {
        Ok(header.payload_length)
    }
}

pub fn validated_payload_length(header: &StandardHeader, remaining_bytes: usize) -> (r: Result<
    u16,
    DltParseError,
>)
    ensures
        match r {
            Ok(n) => spec_validated_payload_length(header@, remaining_bytes as nat) == Ok::<
                _,
                ParseErrorKind,
            >(n),
            Err(e) => spec_validated_payload_length(header@, remaining_bytes as nat) == Err::<
                u16,
                _,
            >(e.kind()),
        },
{
    let headers_length: usize = calculate_all_headers_length(header.header_type_byte()) as usize;
    let message_length: usize = headers_length + header.payload_length as usize;
    if message_length > remaining_bytes {
        Err(incomplete(message_length - remaining_bytes))
    } else {
        Ok(header.payload_length)
    }
}

/// The input after the next storage header, and the number of bytes up to
/// there: those in front of the pattern and the sixteen of the header.
pub open spec fn spec_skip_till_after_next_storage_header(s: Seq<u8>) -> SpecParsed<u64> {
    match spec_find_pattern(s) {
        None => Err(ParseErrorKind::ParsingHickup),
        Some(dropped) => match spec_skip_storage_header(s.subrange(dropped, s.len() as int)) {
            Err(e) => Err(e),
            Ok((rest, n)) => Ok((rest, (dropped + n) as u64)),
        },
    }
}

/// Move past the next storage header.
pub fn skip_till_after_next_storage_header<'a>(input: &'a [u8]) -> (r: Result<
    (&'a [u8], u64),
    DltParseError,
>)
    ensures
        match r {
            Ok((rest, n)) => spec_skip_till_after_next_storage_header(input@) == Ok::<
                _,
                ParseErrorKind,
            >((rest@, n)),
            Err(e) => spec_skip_till_after_next_storage_header(input@) == Err::<(Seq<u8>, u64), _>(
                e.kind(),
            ),
        },
{
    match forward_to_next_storage_header(input) {
        Some((consumed, rest)) => {
            let (after_storage_header, skipped_bytes) = skip_storage_header(rest)?;
            assert(consumed + skipped_bytes <= input@.len()) by {
                assert(rest@.len() >= 16);
            }
            let _len: usize = input.len();
            Ok((after_storage_header, consumed + skipped_bytes))
        },
        None => Err(hickup("did not find another storage header")),
    }
}

/// One stored message at the start of `s`, of which only the storage header
/// pattern and the length field are looked at: the outcome is the input
/// after the message and the length of the message, storage header
/// included. On empty input there is nothing to consume.
pub open spec fn spec_dlt_consume_msg(s: Seq<u8>) -> SpecParsed<Option<u64>> {
    if s.len() == 0 {
        Ok((s, None))
    } else {
        match spec_skip_storage_header(s) {
            Err(e) => Err(e),
            Ok((s1, skipped)) => match spec_dlt_standard_header(s1) {
                Err(e) => Err(e),
                Ok((_, header)) => match spec_take(s1, header.spec_overall_length() as nat) {
                    Err(e) => Err(e),
                    Ok((s2, _)) => Ok((s2, Some((skipped + header.spec_overall_length()) as u64))),
                },
            },
        }
    }
}

/// Skip one DLT message in the input in an efficient way. The message has
/// to start with a storage header.
pub fn dlt_consume_msg<'a>(input: &'a [u8]) -> (r: Result<
    (&'a [u8], Option<u64>),
    DltParseError,
>)
    ensures
        match r {
            Ok((rest, n)) => spec_dlt_consume_msg(input@) == Ok::<_, ParseErrorKind>((rest@, n)),
            Err(e) => spec_dlt_consume_msg(input@) == Err::<(Seq<u8>, Option<u64>), _>(e.kind()),
        },
{
    if input.len() == 0 {
        return Ok((input, None));
    }
    let (after_storage_header, skipped_bytes) = skip_storage_header(input)?;
    let (_, header) = dlt_standard_header(after_storage_header)?;
    let overall_length: u16 = header.overall_length();
    let (after_message, _) = take(after_storage_header, overall_length as usize)?;
    Ok((after_message, Some(skipped_bytes + overall_length as u64)))
}

/// Whether every argument is a chunk of a network trace: raw bytes behind
/// the plain type descriptor for raw bytes.
pub open spec fn spec_all_chunks(args: Seq<ArgumentView>) -> bool {
    forall|i: int| 0 <= i < args.len() ==> (#[trigger] args[i]).type_info == spec_chunk_info()
}

/// The bytes of one argument that is a chunk.
pub open spec fn spec_chunk_of(arg: ArgumentView) -> Seq<u8> {
    match arg.value {
        ValueView::Raw(bytes) => bytes,
        _ => Seq::<u8>::empty(),
    }
}

/// The chunks that a list of arguments holds.
pub open spec fn spec_chunks_of(args: Seq<ArgumentView>) -> Seq<Seq<u8>> {
    Seq::new(args.len(), |i: int| spec_chunk_of(args[i]))
}

/// The payload that a list of decoded arguments makes: the chunks of a
/// network trace where the message is one and every argument is a chunk,
/// the arguments themselves otherwise.
pub open spec fn spec_verbose_payload(args: Seq<ArgumentView>, network_trace: bool) -> PayloadContentView {
    if network_trace && spec_all_chunks(args) {
        PayloadContentView::NetworkTrace(spec_chunks_of(args))
    } else {
        PayloadContentView::Verbose(args)
    }
}

/// The chunks of `args`, where every argument is a chunk.
fn chunks_of(args: &Vec<Argument>) -> (r: Option<Vec<Vec<u8>>>)
    ensures
        match r {
            Some(chunks) => spec_all_chunks(spec_argument_views(args@)) && spec_chunk_views(
                chunks@,
            ) == spec_chunks_of(spec_argument_views(args@)),
            None => !spec_all_chunks(spec_argument_views(args@)),
        },
{
    let ghost views = spec_argument_views(args@);
    let mut chunks: Vec<Vec<u8>> = Vec::new();
    let mut i: usize = 0;
    while i < args.len()
        invariant
            i <= args@.len(),
            views == spec_argument_views(args@),
            chunks@.len() == i,
            forall|j: int| 0 <= j < i ==> (#[trigger] views[j]).type_info == spec_chunk_info(),
            forall|j: int| 0 <= j < i ==> (#[trigger] chunks@[j])@ == spec_chunk_of(views[j]),
        decreases args@.len() - i,
    {
        let arg = &args[i];
        assert(arg@ == views[i as int]);
        let info = arg.type_info;
        let plain = matches!(info.kind, TypeInfoKind::Raw) && matches!(
            info.coding,
            crate::dlt::StringCoding::ASCII
        ) && !info.has_variable_info && !info.has_trace_info;
        if !plain {
            return None;
        }
        let chunk: Vec<u8> = match &arg.value {
            Value::Raw(bytes) => vstd::slice::slice_to_vec(bytes.as_slice()),
            _ => Vec::new(),
        };
        chunks.push(chunk);
        i += 1;
    }
    assert(spec_chunk_views(chunks@) =~= spec_chunks_of(views));
    Some(chunks)
}

/// The arguments of a verbose payload: `arg_count` arguments are decoded
/// from the bytes of the payload and from nothing behind them. Arguments
/// that need more bytes than the payload has are malformed: the payload is
/// at hand, so that no further input can complete them. Bytes of the
/// payload behind the last argument belong to no argument.
pub open spec fn spec_payload_arguments(payload: Seq<u8>, e: Endianness, arg_count: nat) -> Result<
    Seq<ArgumentView>,
    ParseErrorKind,
> {
    match spec_arguments(payload, e, arg_count) {
        Ok((_, args)) => Ok(args),
        Err(ParseErrorKind::Incomplete(_)) => Err(ParseErrorKind::ParsingHickup),
        Err(err) => Err(err),
    }
}

/// The payload of a message. It takes `payload_length` bytes, and what is
/// left of the input stands behind them.
///
/// * A verbose payload is a list of `arg_count` arguments, see
///   [`spec_payload_arguments`].
/// * The payload of a control message is one byte that tells the kind of
///   the message, and `payload_length - 1` opaque bytes.
/// * Any other payload is the message id and `payload_length - 4` opaque
///   bytes.
///
/// A payload that is too short for the byte or the id is malformed.
pub open spec fn spec_dlt_payload(
    s: Seq<u8>,
    e: Endianness,
    verbose: bool,
    payload_length: u16,
    arg_count: u8,
    control: bool,
    network_trace: bool,
) -> SpecParsed<PayloadContentView> {
    if verbose {
        match spec_take(s, payload_length as nat) {
            Err(err) => Err(err),
            Ok((rest, payload)) => match spec_payload_arguments(payload, e, arg_count as nat) {
                Err(err) => Err(err),
                Ok(args) => Ok((rest, spec_verbose_payload(args, network_trace))),
            },
        }
    } else if control {
        if payload_length < 1 {
            Err(ParseErrorKind::ParsingHickup)
        } else {
            match spec_parse_u8(s) {
                Err(err) => Err(err),
                Ok((s1, id)) => match spec_take(s1, (payload_length - 1) as nat) {
                    Err(err) => Err(err),
                    Ok((s2, bytes)) => Ok(
                        (s2, PayloadContentView::ControlMsg(ControlType::spec_from_value(id), bytes)),
                    ),
                },
            }
        }
    } else {
        if payload_length < 4 {
            Err(ParseErrorKind::ParsingHickup)
        } else {
            match spec_parse_u32(s, e) {
                Err(err) => Err(err),
                Ok((s1, id)) => match spec_take(s1, (payload_length - 4) as nat) {
                    Err(err) => Err(err),
                    Ok((s2, bytes)) => Ok((s2, PayloadContentView::NonVerbose(id, bytes))),
                },
            }
        }
    }
}

/// Decode the payload of a message.
pub fn dlt_payload<'a>(
    input: &'a [u8],
    e: Endianness,
    verbose: bool,
    payload_length: u16,
    arg_count: u8,
    control: bool,
    network_trace: bool,
) -> (r: Result<(&'a [u8], PayloadContent), DltParseError>)
    ensures
        match r {
            Ok((rest, payload)) => spec_dlt_payload(
                input@,
                e,
                verbose,
                payload_length,
                arg_count,
                control,
                network_trace,
            ) == Ok::<_, ParseErrorKind>((rest@, payload@)),
            Err(err) => spec_dlt_payload(
                input@,
                e,
                verbose,
                payload_length,
                arg_count,
                control,
                network_trace,
            ) == Err::<(Seq<u8>, PayloadContentView), _>(err.kind()),
        },
{
    if verbose {
        let (rest, payload) = take(input, payload_length as usize)?;
        let args = match dlt_arguments(payload, e, arg_count) {
            Ok((_, args)) => args,
            Err(DltParseError::IncompleteParse { .. }) => {
                return Err(hickup("error, arguments exceed the payload"));
            },
            Err(err) => {
                return Err(err);
            },
        };
        if network_trace {
            match chunks_of(&args) {
                Some(chunks) => Ok((rest, PayloadContent::NetworkTrace(chunks))),
                None => Ok((rest, PayloadContent::Verbose(args))),
            }
        } else {
            Ok((rest, PayloadContent::Verbose(args)))
        }
    } else if control {
        if payload_length < 1 {
            return Err(hickup("error, payload too short"));
        }
        let (s1, id) = parse_u8(input)?;
        let (s2, bytes) = take(s1, (payload_length - 1) as usize)?;
        Ok((s2, PayloadContent::ControlMsg(ControlType::from_value(id), vstd::slice::slice_to_vec(bytes))))
    } else {
        if payload_length < 4 {
            return Err(hickup("error, payload too short"));
        }
        let (s1, id) = parse_u32(input, e)?;
        let (s2, bytes) = take(s1, (payload_length - 4) as usize)?;
        Ok((s2, PayloadContent::NonVerbose(id, vstd::slice::slice_to_vec(bytes))))
    }
}

/// Used when producing messages in a stream, indicates if messages were
/// filtered or could not be parsed.
#[derive(Debug, PartialEq, Eq)]
pub enum ParsedMessage {
    /// Regular message, could be parsed.
    Item(Message),
    /// The message was filtered out due to filter conditions (log level
    /// etc.); holds the length of the payload that was skipped.
    FilteredOut(usize),
    /// The parsed message was invalid, no parse possible.
    Invalid,
}

/// Mathematical value of a [`ParsedMessage`].
pub enum ParsedMessageView {
    Item(MessageView),
    FilteredOut(usize),
    Invalid,
}

impl View for ParsedMessage {
    type V = ParsedMessageView;

    open spec fn view(&self) -> ParsedMessageView {
        match *self {
            ParsedMessage::Item(m) => ParsedMessageView::Item(m@),
            ParsedMessage::FilteredOut(n) => ParsedMessageView::FilteredOut(n),
            ParsedMessage::Invalid => ParsedMessageView::Invalid,
        }
    }
}

/// The place where the message proper starts. Where a storage header is
/// expected, the input is searched for the next pattern; input without
/// pattern is incomplete by an unknown number of bytes.
pub open spec fn spec_message_start(s: Seq<u8>, with_storage_header: bool) -> SpecParsed<
    Option<StorageHeaderView>,
> {
    if with_storage_header {
        match spec_dlt_storage_header(s) {
            Err(e) => Err(e),
            Ok((_, None)) => Err(ParseErrorKind::Incomplete(None)),
            Ok((s1, Some((header, _)))) => Ok((s1, Some(header))),
        }
    } else {
        Ok((s, None))
    }
}

/// The extended header, where the standard header announced one.
pub open spec fn spec_opt_extended_header(s: Seq<u8>, present: bool) -> SpecParsed<
    Option<ExtendedHeaderView>,
> {
    if present {
        match spec_dlt_extended_header(s) {
            Err(e) => Err(e),
            Ok((rest, header)) => Ok((rest, Some(header))),
        }
    } else {
        Ok((s, None))
    }
}

/// What the extended header says of the payload: whether it is verbose,
/// the number of its arguments, whether the message is a control message,
/// and whether it is a network trace. A message without extended header is
/// none of these.
pub open spec fn spec_payload_traits(header: Option<ExtendedHeaderView>) -> (bool, u8, bool, bool) {
    match header {
        Some(h) => (
            h.verbose,
            h.argument_count,
            h.message_type is Control,
            h.message_type is NetworkTrace,
        ),
        None => (false, 0, false, false),
    }
}

/// The ECU id by which a message is filtered: that of the standard header,
/// or that of the storage header where the standard header has none.
pub open spec fn spec_message_ecu_id(
    storage_header: Option<StorageHeaderView>,
    header: StandardHeaderView,
) -> Option<Seq<char>> {
    match header.ecu_id {
        Some(id) => Some(id),
        None => match storage_header {
            Some(s) => Some(s.ecu_id),
            None => None,
        },
    }
}

/// What is left to decode after the headers: the payload is skipped where
/// the filter drops the message, and decoded otherwise.
pub open spec fn spec_message_body(
    s: Seq<u8>,
    filter: Option<FilterView>,
    storage_header: Option<StorageHeaderView>,
    header: StandardHeaderView,
    extended_header: Option<ExtendedHeaderView>,
    payload_length: u16,
) -> SpecParsed<ParsedMessageView> {
    if spec_filtered_out(extended_header, filter, spec_message_ecu_id(storage_header, header)) {
        match spec_take(s, payload_length as nat) {
            Err(e) => Err(e),
            Ok((rest, _)) => Ok((rest, ParsedMessageView::FilteredOut(payload_length as usize))),
        }
    } else {
        let (verbose, arg_count, control, network_trace) = spec_payload_traits(extended_header);
        match spec_dlt_payload(
            s,
            header.endianness,
            verbose,
            payload_length,
            arg_count,
            control,
            network_trace,
        ) {
            Err(e) => Err(e),
            Ok((rest, payload)) => Ok(
                (
                    rest,
                    ParsedMessageView::Item(
                        MessageView { storage_header, header, extended_header, payload },
                    ),
                ),
            ),
        }
    }
}

/// The message at the start of `s`.
///
/// 1. With a storage header expected, everything in front of the next
///    pattern is dropped and the storage header is read.
/// 2. The standard header is read; its length field must cover the headers
///    that its first byte announces.
/// 3. The whole message, as long as the length field says, must be at
///    hand; where it is not, the outcome is incomplete by the number of
///    bytes that are missing.
/// 4. The extended header is read where the standard header announces it.
/// 5. Where the filter drops the message the payload is skipped.
/// 6. The payload is decoded in the byte order that the standard header
///    names.
pub open spec fn spec_dlt_message(
    s: Seq<u8>,
    filter: Option<FilterView>,
    with_storage_header: bool,
) -> SpecParsed<ParsedMessageView> {
    match spec_message_start(s, with_storage_header) {
        Err(e) => Err(e),
        Ok((s1, storage_header)) => match spec_dlt_standard_header(s1) {
            Err(e) => Err(e),
            Ok((s2, header)) => match spec_validated_payload_length(header, s1.len()) {
                Err(e) => Err(e),
                Ok(payload_length) => match spec_opt_extended_header(
                    s2,
                    header.has_extended_header,
                ) {
                    Err(e) => Err(e),
                    Ok((s3, extended_header)) => spec_message_body(
                        s3,
                        filter,
                        storage_header,
                        header,
                        extended_header,
                        payload_length,
                    ),
                },
            },
        },
    }
}

fn message_start<'a>(input: &'a [u8], with_storage_header: bool) -> (r: Result<
    (&'a [u8], Option<StorageHeader>),
    DltParseError,
>)
    ensures
        match r {
            Ok((rest, header)) => spec_message_start(input@, with_storage_header) == Ok::<
                _,
                ParseErrorKind,
            >((rest@, crate::header::spec_opt_storage(header))),
            Err(e) => spec_message_start(input@, with_storage_header) == Err::<
                (Seq<u8>, Option<StorageHeaderView>),
                _,
            >(e.kind()),
        },
{
    if with_storage_header {
        match dlt_storage_header(input)? {
            (_, None) => Err(DltParseError::IncompleteParse { needed: None }),
            (rest, Some((header, _))) => Ok((rest, Some(header))),
        }
    } else {
        Ok((input, None))
    }
}

fn opt_extended_header<'a>(input: &'a [u8], present: bool) -> (r: Result<
    (&'a [u8], Option<ExtendedHeader>),
    DltParseError,
>)
    ensures
        match r {
            Ok((rest, header)) => spec_opt_extended_header(input@, present) == Ok::<
                _,
                ParseErrorKind,
            >((rest@, crate::header::spec_opt_extended(header))),
            Err(e) => spec_opt_extended_header(input@, present) == Err::<
                (Seq<u8>, Option<ExtendedHeaderView>),
                _,
            >(e.kind()),
        },
{
    if present {
        let (rest, header) = dlt_extended_header(input)?;
        Ok((rest, Some(header)))
    } else {
        Ok((input, None))
    }
}

fn message_body<'a>(
    input: &'a [u8],
    filter_config_opt: Option<&ProcessedDltFilterConfig>,
    storage_header: Option<StorageHeader>,
    header: StandardHeader,
    extended_header: Option<ExtendedHeader>,
    payload_length: u16,
) -> (r: Result<(&'a [u8], ParsedMessage), DltParseError>)
    ensures
        match r {
            Ok((rest, parsed)) => spec_message_body(
                input@,
                spec_opt_filter(filter_config_opt),
                crate::header::spec_opt_storage(storage_header),
                header@,
                crate::header::spec_opt_extended(extended_header),
                payload_length,
            ) == Ok::<_, ParseErrorKind>((rest@, parsed@)),
            Err(e) => spec_message_body(
                input@,
                spec_opt_filter(filter_config_opt),
                crate::header::spec_opt_storage(storage_header),
                header@,
                crate::header::spec_opt_extended(extended_header),
                payload_length,
            ) == Err::<(Seq<u8>, ParsedMessageView), _>(e.kind()),
        },
{
    let ecu_id: Option<&String> = match &header.ecu_id {
        Some(id) => Some(id),
        None => match &storage_header {
            Some(s) => Some(&s.ecu_id),
            None => None,
        },
    };
    if filtered_out(extended_header.as_ref(), filter_config_opt, ecu_id) {
        let (after_message, _) = take(input, payload_length as usize)?;
        return Ok((after_message, ParsedMessage::FilteredOut(payload_length as usize)));
    }
    let (verbose, arg_count, control, network_trace): (bool, u8, bool, bool) =
        match &extended_header {
        Some(h) => (
            h.verbose,
            h.argument_count,
            matches!(h.message_type, MessageType::Control(_)),
            matches!(h.message_type, MessageType::NetworkTrace(_)),
        ),
        None => (false, 0, false, false),
    };
    let (rest, payload) = dlt_payload(
        input,
        header.endianness,
        verbose,
        payload_length,
        arg_count,
        control,
        network_trace,
    )?;
    Ok((rest, ParsedMessage::Item(Message { storage_header, header, extended_header, payload })))
}

/// Parse a DLT message from some binary input data.
///
/// A DLT message looks like this: `<STANDARD-HEADER><EXTENDED-HEADER><PAYLOAD>`.
/// If stored, an additional header is placed before all of this:
/// `<STORAGE-HEADER><...>`.
///
/// For example, the 47 bytes
/// `444C5401 262CC94D D8A20C00 45435500 3500001F 45435500 3F88623A 16014150 5000434F 4E001100 00000472 656D6F`
/// are:
///
/// ``` text
/// <STORAGE-HEADER>: 444C5401 262CC94D D8A20C00 45435500
///   444C5401 = DLT + 0x01 (the pattern)
///   seconds: 262CC94D = 0x4DC92C26
///   microseconds: D8A20C00 = 0x000CA2D8
///   ecu id: 45435500 = "ECU"
/// <HEADER>: 35 00 001F 45435500 3F88623A
///   header type = 0x35 = 0b0011 0101: extended header, little endian,
///     with ecu id, no session id, with timestamp, version 1
///   message counter = 0x00
///   length = 001F = 31
///   ecu id = 45435500 = "ECU"
///   timestamp = 3F88623A
/// <EXTENDED HEADER>: 16 01 41505000 434F4E00
///   message info = 0x16 = 0b0001 0110: non-verbose, control message,
///     request
///   number of arguments = 0x01
///   application id = 41505000 = "APP"
///   context id = 434F4E00 = "CON"
/// <PAYLOAD>: 11 00 00000472 656D6F
///   0x11 = SetDefaultLogLevel
///   00 = new log level (block all messages)
/// ```
///
/// The result is the rest of the input together with the message, or with
/// the length of the payload where the filter dropped the message.
pub fn dlt_message<'a>(
    input: &'a [u8],
    filter_config_opt: Option<&ProcessedDltFilterConfig>,
    with_storage_header: bool,
) -> (r: Result<(&'a [u8], ParsedMessage), DltParseError>)
    ensures
        match r {
            Ok((rest, parsed)) => spec_dlt_message(
                input@,
                spec_opt_filter(filter_config_opt),
                with_storage_header,
            ) == Ok::<_, ParseErrorKind>((rest@, parsed@)),
            Err(e) => spec_dlt_message(
                input@,
                spec_opt_filter(filter_config_opt),
                with_storage_header,
            ) == Err::<(Seq<u8>, ParsedMessageView), _>(e.kind()),
        },
{
    let (after_storage_header, storage_header) = message_start(input, with_storage_header)?;
    let (after_standard_header, header) = dlt_standard_header(after_storage_header)?;
    let payload_length = validated_payload_length(&header, after_storage_header.len())?;
    let (after_headers, extended_header) = opt_extended_header(
        after_standard_header,
        header.has_extended_header,
    )?;
    message_body(
        after_headers,
        filter_config_opt,
        storage_header,
        header,
        extended_header,
        payload_length,
    )
}

} // verus!
