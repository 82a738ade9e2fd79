//! # Decoding inverts encoding
//!
//! For every valid value, decoding the bytes of the value gives the value
//! back and leaves exactly the bytes that followed it. This module says
//! which values are valid, and proves the statement for every layer of the
//! format: numbers, text fields, type descriptors, headers, arguments,
//! payloads and whole messages.
//!
//! A value is valid if the format can hold it and no other value has the
//! same bytes: text holds no zero character and fits its length field, the
//! detail of a message type is the number of no named variant, the header
//! tells the length and the kind of the payload as they are.
use crate::argument::{
    spec_opt_len_bytes, spec_opt_text_bytes, spec_text_field_len, ArgumentView, FixedPoint,
    FixedPointValue, ValueView,
};
use crate::dlt::{Endianness, FloatWidth, TypeInfo, TypeInfoKind, TypeLength};
use crate::filtering::{spec_filtered_out, FilterView};
use crate::header::{
    spec_dlt_pattern, spec_id_bytes, spec_padded, ExtendedHeaderView, StandardHeaderView,
    StorageHeaderView,
};
use crate::message::{
    spec_arguments_bytes, spec_chunk_bytes, spec_chunk_info, spec_chunks_bytes, MessageView,
    PayloadContentView,
};
use crate::parse::{
    is_text_len, lemma_find_pattern_unique, lemma_text_len_unique, spec_all_chunks,
    spec_chunks_of, spec_dlt_extended_header, spec_dlt_message, spec_dlt_payload,
    spec_dlt_standard_header, spec_dlt_storage_header, spec_maybe_ecu_id, spec_maybe_u32,
    spec_message_body, spec_message_start, spec_occurs_at, spec_opt_extended_header,
    spec_parse_ecu_id, spec_parse_u128, spec_parse_u16, spec_parse_u32, spec_parse_u64,
    spec_parse_u8, spec_payload_traits, spec_take, spec_zero_terminated, ParseErrorKind,
    ParsedMessageView,
};
use crate::text::{lemma_lossy_text_of_encoding, spec_lossy_text};
use crate::verbose::{
    spec_arguments, spec_bool_argument, spec_dlt_argument, spec_dlt_fixed_point, spec_dlt_sint,
    spec_dlt_type_info, spec_dlt_uint, spec_number, spec_number_argument, spec_opt_fixed_point,
    spec_opt_variable_name, spec_raw_argument, spec_string_argument,
    spec_variable_name_and_unit,
};
use crate::wire::{
    lemma_u128_at_local, lemma_u128_bytes_len, lemma_u128_roundtrip, lemma_u16_at_local,
    lemma_u16_bytes_len, lemma_u16_roundtrip, lemma_u32_at_local, lemma_u32_bytes_len,
    lemma_u32_roundtrip, lemma_u64_at_local, lemma_u64_bytes_len, lemma_u64_roundtrip,
    spec_u128_bytes, spec_u16_bytes, spec_u32_bytes, spec_u64_bytes,
};
use vstd::prelude::*;
use vstd::utf8::encode_utf8;

verus! {

/// A byte in front of anything is read back.
pub proof fn lemma_parse_u8(b: u8, rest: Seq<u8>)
    ensures
        spec_parse_u8(seq![b] + rest) == Ok::<_, ParseErrorKind>((rest, b)),
{
    assert((seq![b] + rest).subrange(1, (seq![b] + rest).len() as int) =~= rest);
}

/// The bytes of a 16 bit number in front of anything are read back.
pub proof fn lemma_parse_u16(v: u16, e: Endianness, rest: Seq<u8>)
    ensures
        spec_parse_u16(spec_u16_bytes(v, e) + rest, e) == Ok::<_, ParseErrorKind>((rest, v)),
{
    let b = spec_u16_bytes(v, e);
    let s = b + rest;
    lemma_u16_bytes_len(v, e);
    lemma_u16_roundtrip(v, e);
    assert(s.subrange(0, 2) =~= b.subrange(0, 2));
    lemma_u16_at_local(s, 0, b, 0, e);
    assert(s.subrange(2, s.len() as int) =~= rest);
}

/// The bytes of a 32 bit number in front of anything are read back.
pub proof fn lemma_parse_u32(v: u32, e: Endianness, rest: Seq<u8>)
    ensures
        spec_parse_u32(spec_u32_bytes(v, e) + rest, e) == Ok::<_, ParseErrorKind>((rest, v)),
{
    let b = spec_u32_bytes(v, e);
    let s = b + rest;
    lemma_u32_bytes_len(v, e);
    lemma_u32_roundtrip(v, e);
    assert(s.subrange(0, 4) =~= b.subrange(0, 4));
    lemma_u32_at_local(s, 0, b, 0, e);
    assert(s.subrange(4, s.len() as int) =~= rest);
}

/// The bytes of a 64 bit number in front of anything are read back.
pub proof fn lemma_parse_u64(v: u64, e: Endianness, rest: Seq<u8>)
    ensures
        spec_parse_u64(spec_u64_bytes(v, e) + rest, e) == Ok::<_, ParseErrorKind>((rest, v)),
{
    let b = spec_u64_bytes(v, e);
    let s = b + rest;
    lemma_u64_bytes_len(v, e);
    lemma_u64_roundtrip(v, e);
    assert(s.subrange(0, 8) =~= b.subrange(0, 8));
    lemma_u64_at_local(s, 0, b, 0, e);
    assert(s.subrange(8, s.len() as int) =~= rest);
}

/// The bytes of a 128 bit number in front of anything are read back.
pub proof fn lemma_parse_u128(v: u128, e: Endianness, rest: Seq<u8>)
    ensures
        spec_parse_u128(spec_u128_bytes(v, e) + rest, e) == Ok::<_, ParseErrorKind>((rest, v)),
{
    let b = spec_u128_bytes(v, e);
    let s = b + rest;
    lemma_u128_bytes_len(v, e);
    lemma_u128_roundtrip(v, e);
    assert(s.subrange(0, 16) =~= b.subrange(0, 16));
    lemma_u128_at_local(s, 0, b, 0, e);
    assert(s.subrange(16, s.len() as int) =~= rest);
}

/// Bytes in front of anything are split off again.
pub proof fn lemma_take(bytes: Seq<u8>, rest: Seq<u8>)
    ensures
        spec_take(bytes + rest, bytes.len()) == Ok::<_, ParseErrorKind>((rest, bytes)),
{
    let s = bytes + rest;
    assert(s.subrange(bytes.len() as int, s.len() as int) =~= rest);
    assert(s.subrange(0, bytes.len() as int) =~= bytes);
}

/// Whether no byte is zero.
pub open spec fn spec_no_zero(bytes: Seq<u8>) -> bool {
    forall|i: int| 0 <= i < bytes.len() ==> bytes[i] != 0
}

/// Reading a text field of `size` bytes, whose first bytes are not zero and
/// are followed by zero bytes up to the size of the field, yields these
/// first bytes as text, cut at the end of their longest valid UTF-8 prefix,
/// and advances by `size` bytes exactly.
pub proof fn lemma_zero_terminated_field(text: Seq<u8>, size: nat, rest: Seq<u8>)
    requires
        spec_no_zero(text),
        text.len() <= size,
    ensures
        spec_zero_terminated(spec_padded(text, size) + rest, size) == Ok::<_, ParseErrorKind>(
            (rest, spec_lossy_text(text)),
        ),
{
    let field = spec_padded(text, size);
    let s = field + rest;
    let k = text.len() as int;
    assert(is_text_len(s, size, k)) by {
        assert forall|j: int| 0 <= j < k implies s[j] != 0 by {
            assert(s[j] == text[j]);
        }
        if k < size {
            assert(s[k] == 0);
        }
    }
    lemma_text_len_unique(s, size, k);
    assert(s.subrange(0, k) =~= text);
    assert(s.subrange(size as int, s.len() as int) =~= rest);
}

/// An identifier can be stored if its UTF-8 form has at most four bytes,
/// none of which is zero.
pub open spec fn spec_valid_id(id: Seq<char>) -> bool {
    encode_utf8(id).len() <= 4 && spec_no_zero(encode_utf8(id))
}

/// The four bytes of a valid identifier in front of anything are read back.
pub proof fn lemma_parse_id(id: Seq<char>, rest: Seq<u8>)
    requires
        spec_valid_id(id),
    ensures
        spec_parse_ecu_id(spec_id_bytes(id) + rest) == Ok::<_, ParseErrorKind>((rest, id)),
{
    lemma_zero_terminated_field(encode_utf8(id), 4, rest);
    lemma_lossy_text_of_encoding(id);
}

/// Text can be stored in a text field with a 16 bit length if it holds no
/// zero byte and the field, which ends with a zero byte, has at most 65535
/// bytes.
pub open spec fn spec_valid_text(text: Seq<char>) -> bool {
    spec_text_field_len(text) <= u16::MAX && spec_no_zero(encode_utf8(text))
}

/// A text field of valid text in front of anything is read back.
pub proof fn lemma_parse_text_field(text: Seq<char>, rest: Seq<u8>)
    requires
        spec_valid_text(text),
    ensures
        spec_zero_terminated(
            encode_utf8(text) + seq![0u8] + rest,
            spec_text_field_len(text),
        ) == Ok::<_, ParseErrorKind>((rest, text)),
{
    let bytes = encode_utf8(text);
    lemma_zero_terminated_field(bytes, spec_text_field_len(text), rest);
    lemma_lossy_text_of_encoding(text);
    assert(spec_padded(bytes, spec_text_field_len(text)) =~= bytes + seq![0u8]);
}

impl StorageHeaderView {
    /// A storage header is valid if its ECU id can be stored.
    pub open spec fn spec_valid(self) -> bool {
        spec_valid_id(self.ecu_id)
    }

    /// The sixteen bytes of a valid storage header in front of anything are
    /// read back, and nothing is dropped in front of them.
    #[verifier::rlimit(40)]
    pub proof fn lemma_roundtrip(self, rest: Seq<u8>)
        requires
            self.spec_valid(),
        ensures
            self.spec_bytes().len() == 16,
            spec_dlt_storage_header(self.spec_bytes() + rest) == Ok::<_, ParseErrorKind>(
                (rest, Some((self, 0nat))),
            ),
    {
        let seconds = spec_u32_bytes(self.timestamp.seconds, Endianness::Little);
        let microseconds = spec_u32_bytes(self.timestamp.microseconds, Endianness::Little);
        let id = spec_id_bytes(self.ecu_id);
        lemma_u32_bytes_len(self.timestamp.seconds, Endianness::Little);
        lemma_u32_bytes_len(self.timestamp.microseconds, Endianness::Little);
        let s = self.spec_bytes() + rest;
        assert(spec_occurs_at(s, spec_dlt_pattern(), 0)) by {
            assert(s.subrange(0, 4) =~= spec_dlt_pattern());
        }
        lemma_find_pattern_unique(s, 0);
        let s1 = s.subrange(4, s.len() as int);
        assert(s1 =~= seconds + (microseconds + (id + rest)));
        lemma_parse_u32(self.timestamp.seconds, Endianness::Little, microseconds + (id + rest));
        lemma_parse_u32(self.timestamp.microseconds, Endianness::Little, id + rest);
        lemma_parse_id(self.ecu_id, rest);
    }
}

impl StandardHeaderView {
    /// A standard header is valid if its version fits into three bits, its
    /// ECU id can be stored, and the length of the whole message fits into
    /// 16 bits.
    pub open spec fn spec_valid(self) -> bool {
        &&& self.version < 8
        &&& self.ecu_id is Some ==> spec_valid_id(self.ecu_id->Some_0)
        &&& self.spec_overall_length() <= u16::MAX
    }

    /// The header type byte tells the version and each of the flags.
    #[verifier::rlimit(40)]
    pub proof fn lemma_header_type_byte(self)
        requires
            self.version < 8,
        ensures
            self.spec_header_type_byte() / 32 == self.version,
            (self.spec_header_type_byte() % 2 == 1) == self.has_extended_header,
            ((self.spec_header_type_byte() / 2) % 2 == 1) == (self.endianness == Endianness::Big),
            ((self.spec_header_type_byte() / 4) % 2 == 1) == (self.ecu_id is Some),
            ((self.spec_header_type_byte() / 8) % 2 == 1) == (self.session_id is Some),
            ((self.spec_header_type_byte() / 16) % 2 == 1) == (self.timestamp is Some),
    {
        let a: int = if self.has_extended_header {
            1
        } else {
            0
        };
        let b: int = if self.endianness == Endianness::Big {
            1
        } else {
            0
        };
        let c: int = if self.ecu_id is Some {
            1
        } else {
            0
        };
        let d: int = if self.session_id is Some {
            1
        } else {
            0
        };
        let e: int = if self.timestamp is Some {
            1
        } else {
            0
        };
        let t = self.spec_header_type_byte() as int;
        assert(t == self.version * 32 + a + 2 * b + 4 * c + 8 * d + 16 * e);
        assert(t / 2 == self.version * 16 + b + 2 * c + 4 * d + 8 * e);
        assert(t / 4 == self.version * 8 + c + 2 * d + 4 * e);
        assert(t / 8 == self.version * 4 + d + 2 * e);
        assert(t / 16 == self.version * 2 + e);
    }

    /// Number of bytes of the standard header alone.
    pub open spec fn spec_own_length(self) -> nat {
        (4 + (if self.ecu_id is Some {
            4int
        } else {
            0int
        }) + (if self.session_id is Some {
            4int
        } else {
            0int
        }) + (if self.timestamp is Some {
            4int
        } else {
            0int
        })) as nat
    }

    /// The bytes of a valid standard header in front of anything are read
    /// back.
    #[verifier::rlimit(40)]
    pub proof fn lemma_roundtrip(self, rest: Seq<u8>)
        requires
            self.spec_valid(),
        ensures
            self.spec_bytes().len() == self.spec_own_length(),
            spec_dlt_standard_header(self.spec_bytes() + rest) == Ok::<_, ParseErrorKind>(
                (rest, self),
            ),
    {
        let header_type = self.spec_header_type_byte();
        let overall = self.spec_overall_length() as u16;
        let length = spec_u16_bytes(overall, Endianness::Big);
        let options = self.spec_options_bytes();
        lemma_u16_bytes_len(overall, Endianness::Big);
        self.lemma_options_roundtrip(rest);
        self.lemma_header_of();
        let s = self.spec_bytes() + rest;
        let s1 = seq![self.message_counter] + (length + (options + rest));
        let s2 = length + (options + rest);
        let s3 = options + rest;
        assert(s =~= seq![header_type] + s1);
        lemma_parse_u8(header_type, s1);
        lemma_parse_u8(self.message_counter, s2);
        lemma_parse_u16(overall, Endianness::Big, s3);
        assert(self.spec_bytes().len() == 4 + options.len());
    }

    /// The bytes of the optional fields of the header.
    pub open spec fn spec_options_bytes(self) -> Seq<u8> {
        self.spec_ecu_bytes() + spec_opt_u32_bytes(self.session_id) + spec_opt_u32_bytes(
            self.timestamp,
        )
    }

    /// The optional fields of a valid header in front of anything are read
    /// back.
    #[verifier::rlimit(40)]
    pub proof fn lemma_options_roundtrip(self, rest: Seq<u8>)
        requires
            self.spec_valid(),
        ensures
            self.spec_options_bytes().len() + 4 == self.spec_own_length(),
            crate::parse::spec_header_options(
                self.spec_options_bytes() + rest,
                self.spec_header_type_byte(),
            ) == Ok::<_, ParseErrorKind>((rest, (self.ecu_id, self.session_id, self.timestamp))),
    {
        let ecu = self.spec_ecu_bytes();
        let session = spec_opt_u32_bytes(self.session_id);
        let timestamp = spec_opt_u32_bytes(self.timestamp);
        self.lemma_header_type_byte();
        assert(self.spec_options_bytes() + rest =~= ecu + (session + (timestamp + rest)));
        self.lemma_ecu_roundtrip(session + (timestamp + rest));
        lemma_opt_u32_roundtrip(self.session_id, timestamp + rest);
        lemma_opt_u32_roundtrip(self.timestamp, rest);
        assert(ecu.len() == if self.ecu_id is Some {
            4int
        } else {
            0int
        });
    }

    /// The fields of a valid header make the header.
    pub proof fn lemma_header_of(self)
        requires
            self.spec_valid(),
        ensures
            crate::parse::spec_header_of(
                self.spec_header_type_byte(),
                self.message_counter,
                self.spec_overall_length() as u16,
                (self.ecu_id, self.session_id, self.timestamp),
            ) == Ok::<_, ParseErrorKind>(self),
    {
        self.lemma_header_type_byte();
    }

    /// The bytes of the ECU id of the header, where it has one.
    pub open spec fn spec_ecu_bytes(self) -> Seq<u8> {
        match self.ecu_id {
            Some(id) => spec_id_bytes(id),
            None => Seq::<u8>::empty(),
        }
    }

    /// The ECU id of a valid header in front of anything is read back.
    pub proof fn lemma_ecu_roundtrip(self, rest: Seq<u8>)
        requires
            self.spec_valid(),
        ensures
            spec_maybe_ecu_id(self.spec_ecu_bytes() + rest, self.ecu_id is Some) == Ok::<
                _,
                ParseErrorKind,
            >((rest, self.ecu_id)),
    {
        match self.ecu_id {
            Some(id) => {
                lemma_parse_id(id, rest);
            },
            None => {
                assert(self.spec_ecu_bytes() + rest =~= rest);
            },
        }
    }

    /// The length of all headers, as the header type byte tells it.
    pub proof fn lemma_headers_length(self)
        requires
            self.version < 8,
        ensures
            self.spec_headers_length() == self.spec_own_length() + (if self.has_extended_header {
                10int
            } else {
                0int
            }),
    {
        self.lemma_header_type_byte();
    }
}

/// The bytes of a big endian 32 bit number of a header, where there is one.
pub open spec fn spec_opt_u32_bytes(v: Option<u32>) -> Seq<u8> {
    match v {
        Some(n) => spec_u32_bytes(n, Endianness::Big),
        None => Seq::<u8>::empty(),
    }
}

/// An optional number of a header in front of anything is read back.
pub proof fn lemma_opt_u32_roundtrip(v: Option<u32>, rest: Seq<u8>)
    ensures
        spec_maybe_u32(spec_opt_u32_bytes(v) + rest, v is Some) == Ok::<_, ParseErrorKind>(
            (rest, v),
        ),
        spec_opt_u32_bytes(v).len() == (if v is Some {
            4int
        } else {
            0int
        }),
{
    match v {
        Some(n) => {
            lemma_parse_u32(n, Endianness::Big, rest);
            lemma_u32_bytes_len(n, Endianness::Big);
        },
        None => {
            assert(spec_opt_u32_bytes(v) + rest =~= rest);
        },
    }
}

impl ExtendedHeaderView {
    /// An extended header is valid if its message type is valid and its ids
    /// can be stored.
    pub open spec fn spec_valid(self) -> bool {
        &&& self.message_type.is_valid()
        &&& spec_valid_id(self.application_id)
        &&& spec_valid_id(self.context_id)
    }

    /// The ten bytes of a valid extended header in front of anything are
    /// read back.
    #[verifier::rlimit(40)]
    pub proof fn lemma_roundtrip(self, rest: Seq<u8>)
        requires
            self.spec_valid(),
        ensures
            self.spec_bytes().len() == 10,
            spec_dlt_extended_header(self.spec_bytes() + rest) == Ok::<_, ParseErrorKind>(
                (rest, self),
            ),
    {
        let msin = self.message_type.spec_msin(self.verbose);
        let app = spec_id_bytes(self.application_id);
        let context = spec_id_bytes(self.context_id);
        self.message_type.lemma_msin_roundtrip(self.verbose);
        let s = self.spec_bytes() + rest;
        let s1 = seq![self.argument_count] + (app + (context + rest));
        assert(s =~= seq![msin] + s1);
        lemma_parse_u8(msin, s1);
        lemma_parse_u8(self.argument_count, app + (context + rest));
        lemma_parse_id(self.application_id, context + rest);
        lemma_parse_id(self.context_id, rest);
    }
}

/// Whether a kind is that of a number: an integer, a fixed point number or
/// a floating point number.
pub open spec fn spec_is_number(kind: TypeInfoKind) -> bool {
    !(kind is Bool) && !(kind is StringType) && !(kind is Raw)
}

/// Whether an optional text is one that a text field can hold.
pub open spec fn spec_valid_opt_text(text: Option<Seq<char>>) -> bool {
    text is Some ==> spec_valid_text(text->Some_0)
}

impl ArgumentView {
    /// An argument is valid if
    ///
    /// * its type descriptor is valid and its value is of the kind and width
    ///   that the descriptor names;
    /// * with variable info it has a name, and a unit if it is a number;
    ///   without variable info it has neither;
    /// * it has a scaling if and only if it is a fixed point number, and the
    ///   offset of the scaling has the width of the number;
    /// * its texts hold no zero character and fit their length fields, and
    ///   a block of raw bytes has at most 65535 bytes.
    #[verifier::opaque]
    pub open spec fn spec_valid(self) -> bool {
        &&& self.type_info.is_valid()
        &&& self.value.spec_has_kind(self.type_info.kind)
        &&& self.name is Some <==> self.type_info.has_variable_info
        &&& self.unit is Some <==> self.type_info.has_variable_info && spec_is_number(
            self.type_info.kind,
        )
        &&& spec_valid_opt_text(self.name)
        &&& spec_valid_opt_text(self.unit)
        &&& match self.type_info.kind {
            TypeInfoKind::SignedFixedPoint(w) => self.fixed_point is Some
                && self.fixed_point->Some_0.spec_has_width(w),
            TypeInfoKind::UnsignedFixedPoint(w) => self.fixed_point is Some
                && self.fixed_point->Some_0.spec_has_width(w),
            _ => self.fixed_point is None,
        }
        &&& self.value is StringVal ==> spec_valid_text(self.value->StringVal_0)
        &&& self.value is Raw ==> self.value->Raw_0.len() <= u16::MAX
    }

    /// A valid argument keeps within what the length fields can hold.
    pub proof fn lemma_valid_fits(self)
        requires
            self.spec_valid(),
        ensures
            self.spec_fits(),
    {
        reveal(ArgumentView::spec_valid);
    }
}

/// The name of a valid argument that is no number, in front of anything, is
/// read back.
pub proof fn lemma_name_block_roundtrip(arg: ArgumentView, e: Endianness, rest: Seq<u8>)
    requires
        arg.spec_valid(),
    ensures
        spec_opt_variable_name(
            arg.spec_name_block(e) + rest,
            e,
            arg.type_info.has_variable_info,
        ) == Ok::<_, ParseErrorKind>((rest, arg.name)),
{
    reveal(ArgumentView::spec_valid);
    if arg.type_info.has_variable_info {
        let name = arg.name->Some_0;
        let size = spec_text_field_len(name) as u16;
        let field = encode_utf8(name) + seq![0u8];
        assert(arg.spec_name_block(e) + rest =~= spec_u16_bytes(size, e) + (field + rest));
        lemma_parse_u16(size, e, field + rest);
        lemma_parse_text_field(name, rest);
    } else {
        assert(arg.spec_name_block(e) + rest =~= rest);
    }
}

/// Name and unit of a valid number in front of anything are read back.
pub proof fn lemma_name_and_unit_roundtrip(arg: ArgumentView, e: Endianness, rest: Seq<u8>)
    requires
        arg.spec_valid(),
        spec_is_number(arg.type_info.kind),
    ensures
        spec_variable_name_and_unit(
            spec_name_and_unit_bytes(arg, e) + rest,
            e,
            arg.type_info.has_variable_info,
        ) == Ok::<_, ParseErrorKind>((rest, (arg.name, arg.unit))),
{
    reveal(ArgumentView::spec_valid);
    if arg.type_info.has_variable_info {
        let name = arg.name->Some_0;
        let unit = arg.unit->Some_0;
        let name_size = spec_text_field_len(name) as u16;
        let unit_size = spec_text_field_len(unit) as u16;
        let name_field = encode_utf8(name) + seq![0u8];
        let unit_field = encode_utf8(unit) + seq![0u8];
        let s3 = unit_field + rest;
        let s2 = name_field + s3;
        let s1 = spec_u16_bytes(unit_size, e) + s2;
        assert(spec_name_and_unit_bytes(arg, e) + rest =~= spec_u16_bytes(name_size, e) + s1);
        lemma_parse_u16(name_size, e, s1);
        lemma_parse_u16(unit_size, e, s2);
        lemma_parse_text_field(name, s3);
        lemma_parse_text_field(unit, rest);
        assert(name_field + s3 =~= encode_utf8(name) + seq![0u8] + s3);
        assert(unit_field + rest =~= encode_utf8(unit) + seq![0u8] + rest);
    } else {
        assert(spec_name_and_unit_bytes(arg, e) + rest =~= rest);
    }
}

/// The bytes of name and unit of a number.
pub open spec fn spec_name_and_unit_bytes(arg: ArgumentView, e: Endianness) -> Seq<u8> {
    if arg.type_info.has_variable_info {
        spec_opt_len_bytes(arg.name, e) + spec_opt_len_bytes(arg.unit, e) + spec_opt_text_bytes(
            arg.name,
        ) + spec_opt_text_bytes(arg.unit)
    } else {
        Seq::<u8>::empty()
    }
}

/// The bytes of the scaling of an argument, where it has one.
pub open spec fn spec_scaling_bytes(arg: ArgumentView, e: Endianness) -> Seq<u8> {
    match arg.fixed_point {
        Some(fp) => fp.spec_bytes(e),
        None => Seq::<u8>::empty(),
    }
}

impl FixedPoint {
    /// The bytes of a scaling in front of anything are read back.
    #[verifier::rlimit(40)]
    pub proof fn lemma_roundtrip(self, e: Endianness, width: FloatWidth, rest: Seq<u8>)
        requires
            self.spec_has_width(width),
        ensures
            spec_dlt_fixed_point(self.spec_bytes(e) + rest, e, width) == Ok::<_, ParseErrorKind>(
                (rest, self),
            ),
    {
        match self.offset {
            FixedPointValue::I32(v) => {
                let offset = spec_u32_bytes(v as u32, e);
                assert(self.spec_bytes(e) + rest =~= spec_u32_bytes(self.quantization, e) + (offset
                    + rest));
                lemma_parse_u32(self.quantization, e, offset + rest);
                lemma_parse_u32(v as u32, e, rest);
                crate::wire::lemma_i32_roundtrip(v);
            },
            FixedPointValue::I64(v) => {
                let offset = spec_u64_bytes(v as u64, e);
                assert(self.spec_bytes(e) + rest =~= spec_u32_bytes(self.quantization, e) + (offset
                    + rest));
                lemma_parse_u32(self.quantization, e, offset + rest);
                lemma_parse_u64(v as u64, e, rest);
                crate::wire::lemma_i64_roundtrip(v);
            },
        }
    }
}

/// The scaling of a valid argument in front of anything is read back.
pub proof fn lemma_scaling_roundtrip(arg: ArgumentView, e: Endianness, rest: Seq<u8>)
    requires
        arg.spec_valid(),
    ensures
        spec_opt_fixed_point(spec_scaling_bytes(arg, e) + rest, e, arg.type_info.kind) == Ok::<
            _,
            ParseErrorKind,
        >((rest, arg.fixed_point)),
{
    reveal(ArgumentView::spec_valid);
    match arg.type_info.kind {
        TypeInfoKind::SignedFixedPoint(w) => {
            arg.fixed_point->Some_0.lemma_roundtrip(e, w, rest);
        },
        TypeInfoKind::UnsignedFixedPoint(w) => {
            arg.fixed_point->Some_0.lemma_roundtrip(e, w, rest);
        },
        _ => {
            assert(spec_scaling_bytes(arg, e) + rest =~= rest);
        },
    }
}

/// The bytes of an unsigned integer in front of anything are read back.
pub proof fn lemma_uint_roundtrip(value: ValueView, e: Endianness, width: TypeLength, rest: Seq<u8>)
    requires
        value.spec_has_kind(TypeInfoKind::Unsigned(width)),
    ensures
        spec_dlt_uint(value.spec_bytes(e) + rest, e, width) == Ok::<_, ParseErrorKind>(
            (rest, value),
        ),
{
    match value {
        ValueView::U8(v) => lemma_parse_u8(v, rest),
        ValueView::U16(v) => lemma_parse_u16(v, e, rest),
        ValueView::U32(v) => lemma_parse_u32(v, e, rest),
        ValueView::U64(v) => lemma_parse_u64(v, e, rest),
        ValueView::U128(v) => lemma_parse_u128(v, e, rest),
        _ => {},
    }
}

/// The bytes of a signed integer in front of anything are read back.
pub proof fn lemma_sint_roundtrip(value: ValueView, e: Endianness, width: TypeLength, rest: Seq<u8>)
    requires
        value.spec_has_kind(TypeInfoKind::Signed(width)),
    ensures
        spec_dlt_sint(value.spec_bytes(e) + rest, e, width) == Ok::<_, ParseErrorKind>(
            (rest, value),
        ),
{
    match value {
        ValueView::I8(v) => {
            lemma_parse_u8(v as u8, rest);
            crate::wire::lemma_i8_roundtrip(v);
        },
        ValueView::I16(v) => {
            lemma_parse_u16(v as u16, e, rest);
            crate::wire::lemma_i16_roundtrip(v);
        },
        ValueView::I32(v) => {
            lemma_parse_u32(v as u32, e, rest);
            crate::wire::lemma_i32_roundtrip(v);
        },
        ValueView::I64(v) => {
            lemma_parse_u64(v as u64, e, rest);
            crate::wire::lemma_i64_roundtrip(v);
        },
        ValueView::I128(v) => {
            lemma_parse_u128(v as u128, e, rest);
            crate::wire::lemma_i128_roundtrip(v);
        },
        _ => {},
    }
}

/// The bytes of a number of the given kind in front of anything are read
/// back.
pub proof fn lemma_number_roundtrip(value: ValueView, e: Endianness, kind: TypeInfoKind, rest: Seq<u8>)
    requires
        spec_is_number(kind),
        value.spec_has_kind(kind),
    ensures
        spec_number(value.spec_bytes(e) + rest, e, kind) == Ok::<_, ParseErrorKind>((rest, value)),
{
    match kind {
        TypeInfoKind::Signed(l) => lemma_sint_roundtrip(value, e, l, rest),
        TypeInfoKind::SignedFixedPoint(w) => lemma_sint_roundtrip(
            value,
            e,
            crate::dlt::spec_float_width_to_type_length(w),
            rest,
        ),
        TypeInfoKind::Unsigned(l) => lemma_uint_roundtrip(value, e, l, rest),
        TypeInfoKind::UnsignedFixedPoint(w) => lemma_uint_roundtrip(
            value,
            e,
            crate::dlt::spec_float_width_to_type_length(w),
            rest,
        ),
        TypeInfoKind::Float(w) => {
            match value {
                ValueView::F32(v) => lemma_parse_u32(v, e, rest),
                ValueView::F64(v) => lemma_parse_u64(v, e, rest),
                _ => {},
            }
        },
        _ => {},
    }
}

impl ArgumentView {
    /// What follows the type descriptor of a valid number, in front of
    /// anything, is read back.
    #[verifier::rlimit(40)]
    pub proof fn lemma_number_argument(self, e: Endianness, rest: Seq<u8>)
        requires
            self.spec_valid(),
            spec_is_number(self.type_info.kind),
        ensures
            spec_number_argument(
                self.spec_number_prefix(e) + self.value.spec_bytes(e) + rest,
                e,
                self.type_info,
            ) == Ok::<_, ParseErrorKind>((rest, self)),
    {
        reveal(ArgumentView::spec_valid);
        let names = spec_name_and_unit_bytes(self, e);
        let scaling = spec_scaling_bytes(self, e);
        let value = self.value.spec_bytes(e);
        self.lemma_number_shape(e, rest);
        lemma_name_and_unit_roundtrip(self, e, scaling + (value + rest));
        lemma_scaling_roundtrip(self, e, value + rest);
        lemma_number_roundtrip(self.value, e, self.type_info.kind, rest);
    }

    /// What follows the type descriptor of a number is made of name and
    /// unit, the scaling and the value.
    pub proof fn lemma_number_shape(self, e: Endianness, rest: Seq<u8>)
        ensures
            self.spec_number_prefix(e) + self.value.spec_bytes(e) + rest
                == spec_name_and_unit_bytes(self, e) + (spec_scaling_bytes(self, e) + (
            self.value.spec_bytes(e) + rest)),
    {
        assert(self.spec_number_prefix(e) + self.value.spec_bytes(e) + rest
            =~= spec_name_and_unit_bytes(self, e) + (spec_scaling_bytes(self, e) + (
        self.value.spec_bytes(e) + rest)));
    }

    /// What follows the type descriptor in the bytes of an argument, with
    /// `rest` behind it.
    pub open spec fn spec_tail(self, e: Endianness, rest: Seq<u8>) -> Seq<u8> {
        let value = self.value.spec_bytes(e);
        match self.type_info.kind {
            TypeInfoKind::Bool => self.spec_name_block(e) + value + rest,
            TypeInfoKind::StringType => spec_u16_bytes(value.len() as u16, e)
                + self.spec_name_block(e) + value + rest,
            TypeInfoKind::Raw => spec_u16_bytes(value.len() as u16, e) + self.spec_name_block(e)
                + value + rest,
            _ => self.spec_number_prefix(e) + value + rest,
        }
    }

    /// The bytes of an argument are its type descriptor and what follows.
    pub proof fn lemma_shape(self, e: Endianness, rest: Seq<u8>)
        ensures
            self.spec_bytes(e) + rest == spec_u32_bytes(self.type_info.spec_word(), e)
                + self.spec_tail(e, rest),
    {
        assert(self.spec_bytes(e) + rest =~= spec_u32_bytes(self.type_info.spec_word(), e)
            + self.spec_tail(e, rest));
    }

    /// What follows the type descriptor of a valid boolean, in front of
    /// anything, is read back.
    pub proof fn lemma_bool_argument(self, e: Endianness, rest: Seq<u8>)
        requires
            self.spec_valid(),
            self.type_info.kind is Bool,
        ensures
            spec_bool_argument(
                self.spec_name_block(e) + self.value.spec_bytes(e) + rest,
                e,
                self.type_info,
            ) == Ok::<_, ParseErrorKind>((rest, self)),
    {
        reveal(ArgumentView::spec_valid);
        let value = self.value.spec_bytes(e);
        assert(self.spec_name_block(e) + value + rest =~= self.spec_name_block(e) + (value
            + rest));
        lemma_name_block_roundtrip(self, e, value + rest);
        lemma_parse_u8(self.value->Bool_0, rest);
    }

    /// What follows the type descriptor of a valid string, in front of
    /// anything, is read back.
    #[verifier::rlimit(40)]
    pub proof fn lemma_string_argument(self, e: Endianness, rest: Seq<u8>)
        requires
            self.spec_valid(),
            self.type_info.kind is StringType,
        ensures
            spec_string_argument(
                spec_u16_bytes(self.value.spec_bytes(e).len() as u16, e) + self.spec_name_block(e)
                    + self.value.spec_bytes(e) + rest,
                e,
                self.type_info,
            ) == Ok::<_, ParseErrorKind>((rest, self)),
    {
        reveal(ArgumentView::spec_valid);
        let text = self.value->StringVal_0;
        let value = self.value.spec_bytes(e);
        let size = value.len() as u16;
        let s1 = self.spec_name_block(e) + (value + rest);
        assert(spec_u16_bytes(size, e) + self.spec_name_block(e) + value + rest =~= spec_u16_bytes(
            size,
            e,
        ) + s1);
        lemma_parse_u16(size, e, s1);
        lemma_name_block_roundtrip(self, e, value + rest);
        lemma_parse_text_field(text, rest);
        assert(value + rest =~= encode_utf8(text) + seq![0u8] + rest);
    }

    /// What follows the type descriptor of a valid block of raw bytes, in
    /// front of anything, is read back.
    #[verifier::rlimit(40)]
    pub proof fn lemma_raw_argument(self, e: Endianness, rest: Seq<u8>)
        requires
            self.spec_valid(),
            self.type_info.kind is Raw,
        ensures
            spec_raw_argument(
                spec_u16_bytes(self.value.spec_bytes(e).len() as u16, e) + self.spec_name_block(e)
                    + self.value.spec_bytes(e) + rest,
                e,
                self.type_info,
            ) == Ok::<_, ParseErrorKind>((rest, self)),
    {
        reveal(ArgumentView::spec_valid);
        let value = self.value.spec_bytes(e);
        let size = value.len() as u16;
        let s1 = self.spec_name_block(e) + (value + rest);
        assert(spec_u16_bytes(size, e) + self.spec_name_block(e) + value + rest =~= spec_u16_bytes(
            size,
            e,
        ) + s1);
        lemma_parse_u16(size, e, s1);
        lemma_name_block_roundtrip(self, e, value + rest);
        lemma_take(value, rest);
    }

    /// Decoding the bytes of a valid argument gives the argument back and
    /// leaves what followed the bytes, in either byte order.
    #[verifier::rlimit(40)]
    pub proof fn lemma_roundtrip(self, e: Endianness, rest: Seq<u8>)
        requires
            self.spec_valid(),
        ensures
            spec_dlt_argument(self.spec_bytes(e) + rest, e) == Ok::<_, ParseErrorKind>(
                (rest, self),
            ),
    {
        assert(self.type_info.is_valid()) by {
            reveal(ArgumentView::spec_valid);
        }
        self.lemma_shape(e, rest);
        self.type_info.lemma_bytes_roundtrip(e, self.spec_tail(e, rest));
        match self.type_info.kind {
            TypeInfoKind::Bool => {
                self.lemma_bool_argument(e, rest);
            },
            TypeInfoKind::StringType => {
                self.lemma_string_argument(e, rest);
            },
            TypeInfoKind::Raw => {
                self.lemma_raw_argument(e, rest);
            },
            _ => {
                self.lemma_number_argument(e, rest);
            },
        }
    }
}

/// Whether every argument is valid.
pub open spec fn spec_valid_arguments(args: Seq<ArgumentView>) -> bool {
    forall|i: int| 0 <= i < args.len() ==> (#[trigger] args[i]).spec_valid()
}

/// A list of arguments is read by reading its first argument and then the
/// others.
pub proof fn lemma_arguments_step(
    s: Seq<u8>,
    e: Endianness,
    count: nat,
    first: ArgumentView,
    s1: Seq<u8>,
    others: Seq<ArgumentView>,
    s2: Seq<u8>,
)
    requires
        count > 0,
        spec_dlt_argument(s, e) == Ok::<_, ParseErrorKind>((s1, first)),
        spec_arguments(s1, e, (count - 1) as nat) == Ok::<_, ParseErrorKind>((s2, others)),
    ensures
        spec_arguments(s, e, count) == Ok::<_, ParseErrorKind>((s2, seq![first] + others)),
{
}

/// The bytes of a list of arguments start with the bytes of the first
/// argument.
pub proof fn lemma_arguments_bytes_split(args: Seq<ArgumentView>, e: Endianness, rest: Seq<u8>)
    requires
        args.len() > 0,
    ensures
        spec_arguments_bytes(args, e) + rest == args[0].spec_bytes(e) + (spec_arguments_bytes(
            args.drop_first(),
            e,
        ) + rest),
{
    let first = args[0].spec_bytes(e);
    let others = spec_arguments_bytes(args.drop_first(), e);
    assert(spec_arguments_bytes(args, e) == first + others);
    assert(first + others + rest =~= first + (others + rest));
}

/// The bytes of valid arguments in front of anything are read back.
#[verifier::rlimit(40)]
pub proof fn lemma_arguments_roundtrip(args: Seq<ArgumentView>, e: Endianness, rest: Seq<u8>)
    requires
        spec_valid_arguments(args),
    ensures
        spec_arguments(spec_arguments_bytes(args, e) + rest, e, args.len()) == Ok::<
            _,
            ParseErrorKind,
        >((rest, args)),
    decreases args.len(),
{
    if args.len() == 0 {
        assert(spec_arguments_bytes(args, e) + rest =~= rest);
        assert(args =~= Seq::<ArgumentView>::empty());
    } else {
        let first = args[0];
        let others = args.drop_first();
        let tail = spec_arguments_bytes(others, e) + rest;
        lemma_arguments_bytes_split(args, e, rest);
        assert(first.spec_valid());
        first.lemma_roundtrip(e, tail);
        assert(spec_valid_arguments(others)) by {
            assert forall|i: int| 0 <= i < others.len() implies (#[trigger] others[i]).spec_valid() by {
                assert(others[i] == args[i + 1]);
            }
        }
        lemma_arguments_roundtrip(others, e, rest);
        lemma_arguments_step(
            spec_arguments_bytes(args, e) + rest,
            e,
            args.len(),
            first,
            tail,
            others,
            rest,
        );
        assert(seq![first] + others =~= args);
    }
}

/// The argument that stores a chunk of a network trace.
pub open spec fn spec_chunk_argument(chunk: Seq<u8>) -> ArgumentView {
    ArgumentView {
        type_info: spec_chunk_info(),
        name: None,
        unit: None,
        fixed_point: None,
        value: ValueView::Raw(chunk),
    }
}

/// The arguments that store the chunks of a network trace.
pub open spec fn spec_chunk_arguments(chunks: Seq<Seq<u8>>) -> Seq<ArgumentView> {
    Seq::new(chunks.len(), |i: int| spec_chunk_argument(chunks[i]))
}

/// The bytes of the chunks of a network trace are the bytes of the
/// arguments that store them.
pub proof fn lemma_chunks_are_arguments(chunks: Seq<Seq<u8>>, e: Endianness)
    ensures
        spec_chunks_bytes(chunks, e) == spec_arguments_bytes(spec_chunk_arguments(chunks), e),
    decreases chunks.len(),
{
    let args = spec_chunk_arguments(chunks);
    if chunks.len() != 0 {
        lemma_chunks_are_arguments(chunks.drop_first(), e);
        assert(args.drop_first() =~= spec_chunk_arguments(chunks.drop_first()));
        assert(args[0].spec_bytes(e) =~= spec_chunk_bytes(chunks[0], e));
    }
}

/// What the extended header has to tell of a payload, see
/// [`PayloadContentView::spec_valid`].
pub struct PayloadTraits {
    pub verbose: bool,
    pub arg_count: u8,
    pub control: bool,
    pub network_trace: bool,
}

impl PayloadContentView {
    /// A payload is valid under what the extended header tells of it if
    ///
    /// * the header says that it is verbose exactly if it is a list of
    ///   arguments or chunks, and then the header counts them;
    /// * arguments are valid, and are not all chunks where the message is a
    ///   network trace;
    /// * chunks are in a network trace only and have at most 65535 bytes;
    /// * a control payload is in a control message only, and its kind is no
    ///   number of a named kind;
    /// * any other non-verbose payload is in no control message.
    pub open spec fn spec_valid(self, traits: PayloadTraits) -> bool {
        &&& traits.verbose == self.spec_is_verbose()
        &&& match self {
            PayloadContentView::Verbose(args) => {
                &&& args.len() == traits.arg_count
                &&& spec_valid_arguments(args)
                &&& !(traits.network_trace && spec_all_chunks(args))
            },
            PayloadContentView::NetworkTrace(chunks) => {
                &&& chunks.len() == traits.arg_count
                &&& traits.network_trace
                &&& crate::message::spec_chunks_fit(chunks)
            },
            PayloadContentView::ControlMsg(kind, _) => traits.control && kind.is_canonical(),
            PayloadContentView::NonVerbose(_, _) => !traits.control,
        }
    }

    /// The bytes of a valid payload in front of anything are read back.
    #[verifier::rlimit(40)]
    pub proof fn lemma_roundtrip(self, e: Endianness, traits: PayloadTraits, rest: Seq<u8>)
        requires
            self.spec_valid(traits),
            self.spec_bytes(e).len() <= u16::MAX,
        ensures
            spec_dlt_payload(
                self.spec_bytes(e) + rest,
                e,
                traits.verbose,
                self.spec_bytes(e).len() as u16,
                traits.arg_count,
                traits.control,
                traits.network_trace,
            ) == Ok::<_, ParseErrorKind>((rest, self)),
    {
        match self {
            PayloadContentView::Verbose(args) => {
                lemma_take(self.spec_bytes(e), rest);
                lemma_arguments_roundtrip(args, e, Seq::<u8>::empty());
                assert(self.spec_bytes(e) + Seq::<u8>::empty() =~= self.spec_bytes(e));
            },
            PayloadContentView::NetworkTrace(chunks) => {
                let args = spec_chunk_arguments(chunks);
                lemma_chunks_are_arguments(chunks, e);
                assert(spec_valid_arguments(args)) by {
                    assert forall|i: int| 0 <= i < args.len() implies (#[trigger] args[i]).spec_valid() by {
                        reveal(ArgumentView::spec_valid);
                        assert(chunks[i].len() <= u16::MAX);
                    }
                }
                lemma_take(self.spec_bytes(e), rest);
                lemma_arguments_roundtrip(args, e, Seq::<u8>::empty());
                assert(self.spec_bytes(e) + Seq::<u8>::empty() =~= self.spec_bytes(e));
                assert(spec_all_chunks(args));
                assert(spec_chunks_of(args) =~= chunks);
            },
            PayloadContentView::ControlMsg(kind, bytes) => {
                assert(self.spec_bytes(e) + rest =~= seq![kind.spec_value()] + (bytes + rest));
                lemma_parse_u8(kind.spec_value(), bytes + rest);
                lemma_take(bytes, rest);
            },
            PayloadContentView::NonVerbose(id, bytes) => {
                lemma_u32_bytes_len(id, e);
                assert(self.spec_bytes(e) + rest =~= spec_u32_bytes(id, e) + (bytes + rest));
                lemma_parse_u32(id, e, bytes + rest);
                lemma_take(bytes, rest);
            },
        }
    }
}

impl MessageView {
    /// What the extended header of the message tells of the payload.
    pub open spec fn spec_traits(self) -> PayloadTraits {
        let (verbose, arg_count, control, network_trace) = spec_payload_traits(
            self.extended_header,
        );
        PayloadTraits { verbose, arg_count, control, network_trace }
    }

    /// A message is valid if its headers and its payload are valid, the
    /// standard header tells whether there is an extended header and how
    /// long the payload is, and the whole message is no longer than 65535
    /// bytes.
    pub open spec fn spec_valid(self) -> bool {
        &&& self.storage_header is Some ==> self.storage_header->Some_0.spec_valid()
        &&& self.header.spec_valid()
        &&& self.header.has_extended_header == (self.extended_header is Some)
        &&& self.extended_header is Some ==> self.extended_header->Some_0.spec_valid()
        &&& self.header.payload_length == self.payload.spec_bytes(self.header.endianness).len()
        &&& self.payload.spec_valid(self.spec_traits())
    }

    /// The bytes of the extended header, where the message has one.
    pub open spec fn spec_extended_bytes(self) -> Seq<u8> {
        match self.extended_header {
            Some(h) => h.spec_bytes(),
            None => Seq::<u8>::empty(),
        }
    }

    /// The bytes of the storage header, where the message has one.
    pub open spec fn spec_storage_bytes(self) -> Seq<u8> {
        match self.storage_header {
            Some(h) => h.spec_bytes(),
            None => Seq::<u8>::empty(),
        }
    }

    /// The bytes of a valid message without its storage header are as many
    /// as its length field says.
    pub proof fn lemma_length(self)
        requires
            self.spec_valid(),
        ensures
            self.spec_message_bytes().len() == self.header.spec_overall_length(),
            self.spec_bytes().len() == self.header.spec_overall_length() + (
            if self.storage_header is Some {
                16int
            } else {
                0int
            }),
    {
        self.header.lemma_roundtrip(Seq::<u8>::empty());
        self.header.lemma_headers_length();
        match self.extended_header {
            Some(h) => {
                h.lemma_roundtrip(Seq::<u8>::empty());
            },
            None => {},
        }
        match self.storage_header {
            Some(h) => {
                h.lemma_roundtrip(Seq::<u8>::empty());
            },
            None => {},
        }
    }

    /// The storage header of a valid message, if it has one, is read back
    /// in front of anything.
    pub proof fn lemma_start(self, rest: Seq<u8>)
        requires
            self.spec_valid(),
        ensures
            spec_message_start(self.spec_storage_bytes() + rest, self.storage_header is Some)
                == Ok::<_, ParseErrorKind>((rest, self.storage_header)),
    {
        match self.storage_header {
            Some(h) => {
                h.lemma_roundtrip(rest);
            },
            None => {
                assert(self.spec_storage_bytes() + rest =~= rest);
            },
        }
    }

    /// The extended header of a valid message, if it has one, is read back
    /// in front of anything.
    pub proof fn lemma_extended(self, rest: Seq<u8>)
        requires
            self.spec_valid(),
        ensures
            spec_opt_extended_header(
                self.spec_extended_bytes() + rest,
                self.header.has_extended_header,
            ) == Ok::<_, ParseErrorKind>((rest, self.extended_header)),
    {
        match self.extended_header {
            Some(h) => {
                h.lemma_roundtrip(rest);
            },
            None => {
                assert(self.spec_extended_bytes() + rest =~= rest);
            },
        }
    }

    /// What decoding the bytes of the message gives, by what the filter
    /// says.
    pub open spec fn spec_decoded(self, filter: Option<FilterView>) -> ParsedMessageView {
        if spec_filtered_out(
            self.extended_header,
            filter,
            crate::parse::spec_message_ecu_id(self.storage_header, self.header),
        ) {
            ParsedMessageView::FilteredOut(self.header.payload_length as usize)
        } else {
            ParsedMessageView::Item(self)
        }
    }

    /// The body of a valid message in front of anything is read back, or
    /// skipped where the filter drops the message.
    pub proof fn lemma_body(self, filter: Option<FilterView>, rest: Seq<u8>)
        requires
            self.spec_valid(),
        ensures
            spec_message_body(
                self.payload.spec_bytes(self.header.endianness) + rest,
                filter,
                self.storage_header,
                self.header,
                self.extended_header,
                self.header.payload_length,
            ) == Ok::<_, ParseErrorKind>((rest, self.spec_decoded(filter))),
    {
        let payload = self.payload.spec_bytes(self.header.endianness);
        if spec_filtered_out(
            self.extended_header,
            filter,
            crate::parse::spec_message_ecu_id(self.storage_header, self.header),
        ) {
            lemma_take(payload, rest);
        } else {
            self.payload.lemma_roundtrip(self.header.endianness, self.spec_traits(), rest);
        }
    }

    /// Encoding and then decoding a valid message gives the message back,
    /// and what is left of the input is exactly what followed the bytes of
    /// the message. Where a filter drops the message, the length of its
    /// payload is given instead of the message, and what is left is the
    /// same.
    #[verifier::rlimit(40)]
    pub proof fn lemma_roundtrip(self, filter: Option<FilterView>, rest: Seq<u8>)
        requires
            self.spec_valid(),
        ensures
            spec_dlt_message(self.spec_bytes() + rest, filter, self.storage_header is Some)
                == Ok::<_, ParseErrorKind>((rest, self.spec_decoded(filter))),
    {
        let payload = self.payload.spec_bytes(self.header.endianness);
        let s3 = payload + rest;
        let s2 = self.spec_extended_bytes() + s3;
        let s1 = self.header.spec_bytes() + s2;
        let s = self.spec_storage_bytes() + s1;
        self.lemma_shape(rest);
        self.lemma_start(s1);
        self.header.lemma_roundtrip(s2);
        self.lemma_extended(s3);
        self.lemma_payload_length(s1.len());
        self.lemma_body(filter, rest);
        assert(spec_message_start(s, self.storage_header is Some) == Ok::<_, ParseErrorKind>(
            (s1, self.storage_header),
        ));
        assert(spec_dlt_standard_header(s1) == Ok::<_, ParseErrorKind>((s2, self.header)));
        assert(spec_opt_extended_header(s2, self.header.has_extended_header) == Ok::<
            _,
            ParseErrorKind,
        >((s3, self.extended_header)));
        assert(crate::parse::spec_validated_payload_length(self.header, s1.len()) == Ok::<
            _,
            ParseErrorKind,
        >(self.header.payload_length));
    }

    /// The bytes of a message are those of its headers and its payload, one
    /// after the other.
    pub proof fn lemma_shape(self, rest: Seq<u8>)
        ensures
            self.spec_bytes() + rest == self.spec_storage_bytes() + (self.header.spec_bytes() + (
            self.spec_extended_bytes() + (self.payload.spec_bytes(self.header.endianness)
                + rest))),
            (self.header.spec_bytes() + (self.spec_extended_bytes() + (self.payload.spec_bytes(
                self.header.endianness,
            ) + rest))).len() == self.spec_message_bytes().len() + rest.len(),
    {
        assert(self.spec_bytes() + rest =~= self.spec_storage_bytes() + (self.header.spec_bytes()
            + (self.spec_extended_bytes() + (self.payload.spec_bytes(self.header.endianness)
            + rest))));
        assert(self.header.spec_bytes() + (self.spec_extended_bytes() + (self.payload.spec_bytes(
            self.header.endianness,
        ) + rest)) =~= self.spec_message_bytes() + rest);
    }

    /// Where the bytes of a valid message are at hand, the length of its
    /// payload is known.
    pub proof fn lemma_payload_length(self, available: nat)
        requires
            self.spec_valid(),
            available >= self.spec_message_bytes().len(),
        ensures
            crate::parse::spec_validated_payload_length(self.header, available) == Ok::<
                _,
                ParseErrorKind,
            >(self.header.payload_length),
    {
        self.lemma_length();
    }
}

impl TypeInfo {
    /// The bytes of a valid type descriptor in front of anything are read
    /// back, in either byte order and whatever kind, width, coding and
    /// flags the descriptor has.
    pub proof fn lemma_bytes_roundtrip(self, e: Endianness, rest: Seq<u8>)
        requires
            self.is_valid(),
        ensures
            spec_dlt_type_info(spec_u32_bytes(self.spec_word(), e) + rest, e) == Ok::<
                _,
                ParseErrorKind,
            >((rest, self)),
    {
        lemma_parse_u32(self.spec_word(), e, rest);
        self.lemma_word_roundtrip();
    }
}

} // verus!
