//! # The three headers of a DLT message
//!
//! * The storage header is written in front of a message when it is stored:
//!   the pattern `DLT\x01`, a time stamp and the id of the storing ECU.
//! * The standard header is part of every message. Its first byte, the
//!   header type, says which optional fields follow and whether there is an
//!   extended header.
//! * The extended header names application and context and tells what kind
//!   of message this is.
//!
//! All numbers of the standard header are big endian, those of the storage
//! header little endian.
use crate::dlt::{Endianness, MessageType};
use crate::wire::{put_u16, put_u32, spec_u16_bytes, spec_u32_bytes};
use vstd::prelude::*;
use vstd::string::StringSliceAdditionalSpecFns;
use vstd::utf8::encode_utf8;

verus! {

/// The four bytes that start every storage header.
pub open spec fn spec_dlt_pattern() -> Seq<u8> {
    seq![0x44u8, 0x4Cu8, 0x54u8, 0x01u8]
}

/// `bytes`, cut or filled up with zero bytes to exactly `size` bytes.
pub open spec fn spec_padded(bytes: Seq<u8>, size: nat) -> Seq<u8> {
    Seq::new(
        size,
        |i: int|
            if i < bytes.len() {
                bytes[i]
            } else {
                0u8
            },
    )
}

/// The four bytes that store an identifier.
pub open spec fn spec_id_bytes(id: Seq<char>) -> Seq<u8> {
    spec_padded(encode_utf8(id), 4)
}

/// Append `bytes`, cut or filled up with zero bytes to `size` bytes.
pub fn put_padded(buf: &mut Vec<u8>, bytes: &[u8], size: usize)
    ensures
        final(buf)@ == old(buf)@ + spec_padded(bytes@, size as nat),
{
    let mut i: usize = 0;
    while i < size
        invariant
            i <= size,
            buf@ == old(buf)@ + spec_padded(bytes@, size as nat).subrange(0, i as int),
        decreases size - i,
    {
        let b: u8 = if i < bytes.len() {
            bytes[i]
        } else {
            0
        };
        buf.push(b);
        i += 1;
        assert(buf@ =~= old(buf)@ + spec_padded(bytes@, size as nat).subrange(0, i as int));
    }
    assert(spec_padded(bytes@, size as nat).subrange(0, size as int) =~= spec_padded(
        bytes@,
        size as nat,
    ));
}

/// Append the four bytes of an identifier.
pub fn put_id(buf: &mut Vec<u8>, id: &str)
    ensures
        final(buf)@ == old(buf)@ + spec_id_bytes(id@),
{
    put_padded(buf, id.as_bytes(), 4);
}

/// Seconds and microseconds at which a message was stored.
#[derive(Debug, Clone, Copy, PartialEq, Eq, Structural)]
pub struct DltTimeStamp {
    pub seconds: u32,
    pub microseconds: u32,
}

/// The header that precedes a stored message.
#[derive(Debug, Clone, PartialEq, Eq)]
pub struct StorageHeader {
    pub timestamp: DltTimeStamp,
    pub ecu_id: String,
}

/// Mathematical value of a [`StorageHeader`].
pub struct StorageHeaderView {
    pub timestamp: DltTimeStamp,
    pub ecu_id: Seq<char>,
}

impl View for StorageHeader {
    type V = StorageHeaderView;

    open spec fn view(&self) -> StorageHeaderView {
        StorageHeaderView { timestamp: self.timestamp, ecu_id: self.ecu_id@ }
    }
}

impl StorageHeaderView {
    /// The sixteen bytes of the header.
    pub open spec fn spec_bytes(self) -> Seq<u8> {
        spec_dlt_pattern() + spec_u32_bytes(self.timestamp.seconds, Endianness::Little)
            + spec_u32_bytes(self.timestamp.microseconds, Endianness::Little) + spec_id_bytes(
            self.ecu_id,
        )
    }
}

impl StorageHeader {
    /// Encode the header.
    pub fn as_bytes(&self) -> (bytes: Vec<u8>)
        ensures
            bytes@ == self@.spec_bytes(),
            bytes@.len() == 16,
    {
        let mut buf: Vec<u8> = Vec::new();
        buf.push(0x44);
        buf.push(0x4C);
        buf.push(0x54);
        buf.push(0x01);
        assert(buf@ =~= spec_dlt_pattern());
        put_u32(&mut buf, self.timestamp.seconds, Endianness::Little);
        put_u32(&mut buf, self.timestamp.microseconds, Endianness::Little);
        put_id(&mut buf, self.ecu_id.as_str());
        proof {
            crate::wire::lemma_u32_bytes_len(self.timestamp.seconds, Endianness::Little);
            crate::wire::lemma_u32_bytes_len(self.timestamp.microseconds, Endianness::Little);
        }
        buf
    }
}

/// Length of standard and extended header together, as the header type byte
/// announces them.
pub open spec fn spec_all_headers_length(header_type: u8) -> u16 {
    (4 + (if (header_type / 4) % 2 == 1 {
        4int
    } else {
        0int
    }) + (if (header_type / 8) % 2 == 1 {
        4int
    } else {
        0int
    }) + (if (header_type / 16) % 2 == 1 {
        4int
    } else {
        0int
    }) + (if header_type % 2 == 1 {
        10int
    } else {
        0int
    })) as u16
}

#[verifier::when_used_as_spec(spec_all_headers_length)]
pub fn calculate_all_headers_length(header_type: u8) -> (len: u16)
    ensures
        len == spec_all_headers_length(header_type),
        4 <= len <= 26,
{
    let mut len: u16 = 4;
    if (header_type / 4) % 2 == 1 {
        len += 4;
    }
    if (header_type / 8) % 2 == 1 {
        len += 4;
    }
    if (header_type / 16) % 2 == 1 {
        len += 4;
    }
    if header_type % 2 == 1 {
        len += 10;
    }
    len
}

/// The header that every message has.
///
/// `payload_length` is not a field of the wire format: the wire carries the
/// length of both headers and the payload together.
#[derive(Debug, Clone, PartialEq, Eq)]
pub struct StandardHeader {
    pub version: u8,
    pub endianness: Endianness,
    pub has_extended_header: bool,
    pub message_counter: u8,
    pub ecu_id: Option<String>,
    pub session_id: Option<u32>,
    pub timestamp: Option<u32>,
    pub payload_length: u16,
}

/// Mathematical value of a [`StandardHeader`].
pub struct StandardHeaderView {
    pub version: u8,
    pub endianness: Endianness,
    pub has_extended_header: bool,
    pub message_counter: u8,
    pub ecu_id: Option<Seq<char>>,
    pub session_id: Option<u32>,
    pub timestamp: Option<u32>,
    pub payload_length: u16,
}

/// Mathematical value of optional text.
pub open spec fn spec_opt_text(text: Option<String>) -> Option<Seq<char>> {
    match text {
        Some(s) => Some(s@),
        None => None,
    }
}

impl View for StandardHeader {
    type V = StandardHeaderView;

    open spec fn view(&self) -> StandardHeaderView {
        StandardHeaderView {
            version: self.version,
            endianness: self.endianness,
            has_extended_header: self.has_extended_header,
            message_counter: self.message_counter,
            ecu_id: spec_opt_text(self.ecu_id),
            session_id: self.session_id,
            timestamp: self.timestamp,
            payload_length: self.payload_length,
        }
    }
}

impl StandardHeaderView {
    /// The first byte of the header: five flags and, in the upper three
    /// bits, the version.
    pub open spec fn spec_header_type_byte(self) -> u8 {
        ((self.version % 8) * 32 + (if self.has_extended_header {
            1int
        } else {
            0int
        }) + (if self.endianness == Endianness::Big {
            2int
        } else {
            0int
        }) + (if self.ecu_id is Some {
            4int
        } else {
            0int
        }) + (if self.session_id is Some {
            8int
        } else {
            0int
        }) + (if self.timestamp is Some {
            16int
        } else {
            0int
        })) as u8
    }

    /// Length of all headers that the message has.
    pub open spec fn spec_headers_length(self) -> u16 {
        spec_all_headers_length(self.spec_header_type_byte())
    }

    /// Length of headers and payload together.
    pub open spec fn spec_overall_length(self) -> int {
        self.spec_headers_length() + self.payload_length
    }

    /// The bytes of the header.
    pub open spec fn spec_bytes(self) -> Seq<u8> {
        seq![self.spec_header_type_byte(), self.message_counter] + spec_u16_bytes(
            self.spec_overall_length() as u16,
            Endianness::Big,
        ) + (match self.ecu_id {
            Some(id) => spec_id_bytes(id),
            None => Seq::<u8>::empty(),
        }) + (match self.session_id {
            Some(id) => spec_u32_bytes(id, Endianness::Big),
            None => Seq::<u8>::empty(),
        }) + (match self.timestamp {
            Some(t) => spec_u32_bytes(t, Endianness::Big),
            None => Seq::<u8>::empty(),
        })
    }
}

impl StandardHeader {
    #[allow(clippy::too_many_arguments)]
    pub fn new(
        version: u8,
        endianness: Endianness,
        message_counter: u8,
        has_extended_header: bool,
        payload_length: u16,
        ecu_id: Option<String>,
        session_id: Option<u32>,
        timestamp: Option<u32>,
    ) -> (header: StandardHeader)
        ensures
            header == (StandardHeader {
                version,
                endianness,
                has_extended_header,
                message_counter,
                ecu_id,
                session_id,
                timestamp,
                payload_length,
            }),
    {
        StandardHeader {
            version,
            endianness,
            has_extended_header,
            message_counter,
            ecu_id,
            session_id,
            timestamp,
            payload_length,
        }
    }

    /// The first byte of the header on the wire.
    pub fn header_type_byte(&self) -> (b: u8)
        ensures
            b == self@.spec_header_type_byte(),
    {
        let mut b: u8 = (self.version % 8) * 32;
        if self.has_extended_header {
            b += 1;
        }
        if self.endianness == Endianness::Big {
            b += 2;
        }
        if self.ecu_id.is_some() {
            b += 4;
        }
        if self.session_id.is_some() {
            b += 8;
        }
        if self.timestamp.is_some() {
            b += 16;
        }
        b
    }

    /// Length of headers and payload together, the length field of the wire
    /// format.
    pub fn overall_length(&self) -> (len: u16)
        requires
            self@.spec_overall_length() <= u16::MAX,
        ensures
            len == self@.spec_overall_length(),
    {
        calculate_all_headers_length(self.header_type_byte()) + self.payload_length
    }

    /// Encode the header.
    pub fn as_bytes(&self) -> (bytes: Vec<u8>)
        requires
            self@.spec_overall_length() <= u16::MAX,
        ensures
            bytes@ == self@.spec_bytes(),
    {
        let mut buf: Vec<u8> = Vec::new();
        buf.push(self.header_type_byte());
        buf.push(self.message_counter);
        assert(buf@ =~= seq![self@.spec_header_type_byte(), self.message_counter]);
        put_u16(&mut buf, self.overall_length(), Endianness::Big);
        match &self.ecu_id {
            Some(id) => {
                put_id(&mut buf, id.as_str());
            },
            None => {
                assert(buf@ =~= buf@ + Seq::<u8>::empty());
            },
        }
        match self.session_id {
            Some(id) => {
                put_u32(&mut buf, id, Endianness::Big);
            },
            None => {
                assert(buf@ =~= buf@ + Seq::<u8>::empty());
            },
        }
        match self.timestamp {
            Some(t) => {
                put_u32(&mut buf, t, Endianness::Big);
            },
            None => {
                assert(buf@ =~= buf@ + Seq::<u8>::empty());
            },
        }
        buf
    }
}

/// The header that tells what kind of message follows.
#[derive(Debug, Clone, PartialEq, Eq)]
pub struct ExtendedHeader {
    pub verbose: bool,
    pub argument_count: u8,
    pub message_type: MessageType,
    pub application_id: String,
    pub context_id: String,
}

/// Mathematical value of an [`ExtendedHeader`].
pub struct ExtendedHeaderView {
    pub verbose: bool,
    pub argument_count: u8,
    pub message_type: MessageType,
    pub application_id: Seq<char>,
    pub context_id: Seq<char>,
}

impl View for ExtendedHeader {
    type V = ExtendedHeaderView;

    open spec fn view(&self) -> ExtendedHeaderView {
        ExtendedHeaderView {
            verbose: self.verbose,
            argument_count: self.argument_count,
            message_type: self.message_type,
            application_id: self.application_id@,
            context_id: self.context_id@,
        }
    }
}

/// Mathematical value of an optional extended header.
pub open spec fn spec_opt_extended(header: Option<ExtendedHeader>) -> Option<ExtendedHeaderView> {
    match header {
        Some(h) => Some(h@),
        None => None,
    }
}

/// Mathematical value of an optional storage header.
pub open spec fn spec_opt_storage(header: Option<StorageHeader>) -> Option<StorageHeaderView> {
    match header {
        Some(h) => Some(h@),
        None => None,
    }
}

impl ExtendedHeaderView {
    /// The ten bytes of the header.
    pub open spec fn spec_bytes(self) -> Seq<u8> {
        seq![self.message_type.spec_msin(self.verbose), self.argument_count] + spec_id_bytes(
            self.application_id,
        ) + spec_id_bytes(self.context_id)
    }

    /// Whether a filter that admits messages up to `level` drops this one:
    /// it does so for a log message of a level with a larger number, which
    /// is a less severe one.
    pub open spec fn spec_skip_with_level(self, level: crate::dlt::LogLevel) -> bool {
        match self.message_type {
            MessageType::Log(l) => l.spec_value() > level.spec_value(),
            _ => false,
        }
    }
}

impl ExtendedHeader {
    /// Encode the header.
    pub fn as_bytes(&self) -> (bytes: Vec<u8>)
        ensures
            bytes@ == self@.spec_bytes(),
            bytes@.len() == 10,
    {
        let mut buf: Vec<u8> = Vec::new();
        buf.push(self.message_type.msin(self.verbose));
        buf.push(self.argument_count);
        assert(buf@ =~= seq![self.message_type.spec_msin(self.verbose), self.argument_count]);
        put_id(&mut buf, self.application_id.as_str());
        put_id(&mut buf, self.context_id.as_str());
        buf
    }

    /// Whether a filter that admits messages up to `level` drops this one.
    pub fn skip_with_level(&self, level: crate::dlt::LogLevel) -> (skip: bool)
        ensures
            skip == self@.spec_skip_with_level(level),
    {
        match self.message_type {
            MessageType::Log(l) => l.value() > level.value(),
            _ => false,
        }
    }
}

} // verus!
