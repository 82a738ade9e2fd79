//! # DLT reading support
//!
//! A reader cuts a byte source into message slices: each slice holds one
//! message, with its storage header where the source has storage headers.
//! To find the end of a message the reader looks at nothing but the length
//! field of the standard header.
use crate::dlt::Endianness;
use crate::filtering::{spec_opt_filter, FilterView, ProcessedDltFilterConfig};
use crate::parse::{
    dlt_message, spec_dlt_message, DltParseError, ParseErrorKind, ParsedMessage,
    ParsedMessageView,
};
use crate::wire::{read_u16_at, spec_u16_at};
use vstd::prelude::*;
use vstd::slice::slice_subrange;

verus! {

/// The default capacity for the internal buffer of a reader over a file or
/// a stream.
pub const DEFAULT_BUFFER_CAPACITY: usize = 10 * 1024 * 1024;

/// The default length of the longest message to be read: a storage header
/// and as many bytes as the length field can count.
pub const DEFAULT_MESSAGE_MAX_LEN: usize = 16 + 65535;

/// Number of bytes in front of the standard header.
pub open spec fn spec_storage_len(with_storage_header: bool) -> nat {
    if with_storage_header {
        16
    } else {
        0
    }
}

/// Number of bytes that have to be read to learn the length of a message:
/// the storage header, where there is one, and the first four bytes of the
/// standard header.
pub open spec fn spec_header_len(with_storage_header: bool) -> nat {
    spec_storage_len(with_storage_header) + 4
}

/// The length field of the standard header that starts at `s[0]`.
pub open spec fn spec_parse_length(s: Seq<u8>) -> u16
    recommends
        s.len() >= 4,
{
    spec_u16_at(s, 2, Endianness::Big)
}

/// The length field of the standard header at the start of `input`, of
/// which the first four bytes have to be there.
pub fn parse_length(input: &[u8]) -> (r: Result<u16, DltParseError>)
    ensures
        match r {
            Ok(n) => input@.len() >= 4 && n == spec_parse_length(input@),
            Err(e) => input@.len() < 4 && e.kind() == ParseErrorKind::Incomplete(
                Some((4 - input@.len()) as nat),
            ),
        },
{
    if input.len() < 4 {
        Err(DltParseError::IncompleteParse { needed: Some(4 - input.len()) })
    } else {
        Ok(read_u16_at(input, 2, Endianness::Big))
    }
}

/// Number of bytes that a reader has to read to learn the length of the
/// next message.
pub fn header_len(with_storage_header: bool) -> (n: usize)
    ensures
        n == spec_header_len(with_storage_header),
{
    if with_storage_header {
        20
    } else {
        4
    }
}

/// Number of bytes of a message that follow the `header_len` bytes at its
/// start, which are `header`.
///
/// A reader over a file or a stream reads the header bytes, asks this
/// function, and reads as many bytes as it says. Fewer header bytes than
/// needed are incomplete; a length field of less than four cannot be
/// followed.
pub fn body_len(header: &[u8], with_storage_header: bool) -> (r: Result<usize, DltParseError>)
    ensures
        match r {
            Ok(n) => {
                &&& header@.len() >= spec_header_len(with_storage_header)
                &&& n + 4 == spec_parse_length(
                    header@.subrange(
                        spec_storage_len(with_storage_header) as int,
                        spec_header_len(with_storage_header) as int,
                    ),
                )
            },
            Err(e) => if header@.len() < spec_header_len(with_storage_header) {
                e.kind() == ParseErrorKind::Incomplete(
                    Some((spec_header_len(with_storage_header) - header@.len()) as nat),
                )
            } else {
                e.kind() == ParseErrorKind::Unrecoverable && spec_parse_length(
                    header@.subrange(
                        spec_storage_len(with_storage_header) as int,
                        spec_header_len(with_storage_header) as int,
                    ),
                ) < 4
            },
        },
{
    let needed = header_len(with_storage_header);
    if header.len() < needed {
        return Err(DltParseError::IncompleteParse { needed: Some(needed - header.len()) });
    }
    let standard = slice_subrange(header, needed - 4, needed);
    let message_len: usize = read_u16_at(standard, 2, Endianness::Big) as usize;
    if message_len < 4 {
        Err(DltParseError::Unrecoverable("message length is less than the header".to_owned()))
    } else {
        Ok(message_len - 4)
    }
}

/// What the next step of a reader is, see [`spec_next_slice`].
pub enum NextSlice {
    /// The source holds no further header: reading ends.
    End,
    /// The length field is smaller than the header that holds it.
    BadLength,
    /// The source ends inside the message.
    Truncated,
    /// The next message has this many bytes, its storage header included.
    Message(nat),
}

/// The next step of a reader, of whose source `remaining` is left.
pub open spec fn spec_next_slice(remaining: Seq<u8>, with_storage_header: bool) -> NextSlice {
    let storage_len = spec_storage_len(with_storage_header);
    let header_len = spec_header_len(with_storage_header);
    if remaining.len() < header_len {
        NextSlice::End
    } else {
        let message_len = spec_parse_length(
            remaining.subrange(storage_len as int, header_len as int),
        );
        if message_len < 4 {
            NextSlice::BadLength
        } else if remaining.len() < storage_len + message_len {
            NextSlice::Truncated
        } else {
            NextSlice::Message(storage_len + message_len as nat)
        }
    }
}

/// Reader for DLT message slices from a source in memory.
pub struct DltMessageReader<'a> {
    source: &'a [u8],
    position: usize,
    with_storage_header: bool,
}

impl<'a> DltMessageReader<'a> {
    #[verifier::type_invariant]
    spec fn well_formed(self) -> bool {
        self.position <= self.source@.len()
    }

    /// The part of the source that was not read yet.
    pub closed spec fn spec_remaining(self) -> Seq<u8> {
        self.source@.subrange(self.position as int, self.source@.len() as int)
    }

    /// Whether the source holds storage headers.
    pub closed spec fn spec_with_storage_header(self) -> bool {
        self.with_storage_header
    }

    /// Create a new reader for the given source.
    pub fn new(source: &'a [u8], with_storage_header: bool) -> (reader: Self)
        ensures
            reader.spec_remaining() == source@,
            reader.spec_with_storage_header() == with_storage_header,
    {
        assert(source@.subrange(0, source@.len() as int) =~= source@);
        DltMessageReader { source, position: 0, with_storage_header }
    }

    /// Read the next message slice from the source, or return an empty slice
    /// if no more message could be read.
    ///
    /// * Where the source ends before the length of the next message can be
    ///   read, the slice is empty and the source is used up.
    /// * A length field of less than four makes the header its own end;
    ///   this and a source that ends inside the message are errors after
    ///   which reading cannot go on.
    pub fn next_message_slice(&mut self) -> (r: Result<&'a [u8], DltParseError>)
        ensures
            final(self).spec_with_storage_header() == old(self).spec_with_storage_header(),
            match spec_next_slice(old(self).spec_remaining(), old(self).spec_with_storage_header()) {
                NextSlice::End => {
                    &&& r is Ok
                    &&& r->Ok_0@.len() == 0
                    &&& final(self).spec_remaining().len() == 0
                },
                NextSlice::BadLength => {
                    &&& r is Err
                    &&& r->Err_0.kind() == ParseErrorKind::Unrecoverable
                    &&& final(self).spec_remaining() == old(self).spec_remaining().subrange(
                        spec_header_len(old(self).spec_with_storage_header()) as int,
                        old(self).spec_remaining().len() as int,
                    )
                },
                NextSlice::Truncated => {
                    &&& r is Err
                    &&& r->Err_0.kind() == ParseErrorKind::Unrecoverable
                    &&& final(self).spec_remaining().len() == 0
                },
                NextSlice::Message(n) => {
                    &&& r is Ok
                    &&& r->Ok_0@ == old(self).spec_remaining().subrange(0, n as int)
                    &&& final(self).spec_remaining() == old(self).spec_remaining().subrange(
                        n as int,
                        old(self).spec_remaining().len() as int,
                    )
                },
            },
    {
        proof {
            use_type_invariant(&*self);
        }
        let source = self.source;
        let start: usize = self.position;
        let end: usize = source.len();
        let ghost remaining = self.spec_remaining();
        let storage_len: usize = if self.with_storage_header {
            16
        } else {
            0
        };
        let header_len: usize = storage_len + 4;
        if end - start < header_len {
            self.position = end;
            assert(self.spec_remaining() =~= Seq::<u8>::empty());
            return Ok(slice_subrange(source, end, end));
        }
        let header = slice_subrange(source, start + storage_len, start + header_len);
        assert(header@ =~= remaining.subrange(storage_len as int, header_len as int));
        let message_len: usize = read_u16_at(header, 2, Endianness::Big) as usize;
        if message_len < 4 {
            self.position = start + header_len;
            assert(self.spec_remaining() =~= remaining.subrange(
                header_len as int,
                remaining.len() as int,
            ));
            return Err(
                DltParseError::Unrecoverable("message length is less than the header".to_owned()),
            );
        }
        let total_len: usize = storage_len + message_len;
        if end - start < total_len {
            self.position = end;
            assert(self.spec_remaining() =~= Seq::<u8>::empty());
            return Err(DltParseError::Unrecoverable("failed to fill whole buffer".to_owned()));
        }
        self.position = start + total_len;
        assert(self.spec_remaining() =~= remaining.subrange(
            total_len as int,
            remaining.len() as int,
        ));
        let slice = slice_subrange(source, start, start + total_len);
        assert(slice@ =~= remaining.subrange(0, total_len as int));
        Ok(slice)
    }

    /// Answer if message slices contain a `StorageHeader`.
    pub fn with_storage_header(&self) -> (r: bool)
        ensures
            r == self.spec_with_storage_header(),
    {
        self.with_storage_header
    }
}

/// What reading one message gives, by the next step of the reader: the
/// decoded slice for a message, nothing at the end of the source, and an
/// error otherwise.
pub open spec fn spec_read_message(
    remaining: Seq<u8>,
    filter: Option<FilterView>,
    with_storage_header: bool,
) -> Result<Option<ParsedMessageView>, ParseErrorKind> {
    match spec_next_slice(remaining, with_storage_header) {
        NextSlice::End => Ok(None),
        NextSlice::BadLength => Err(ParseErrorKind::Unrecoverable),
        NextSlice::Truncated => Err(ParseErrorKind::Unrecoverable),
        NextSlice::Message(n) => match spec_dlt_message(
            remaining.subrange(0, n as int),
            filter,
            with_storage_header,
        ) {
            Ok((_, parsed)) => Ok(Some(parsed)),
            Err(e) => Err(e),
        },
    }
}

/// Read and parse the next DLT message from the given reader, if any.
pub fn read_message(
    reader: &mut DltMessageReader,
    filter_config_opt: Option<&ProcessedDltFilterConfig>,
) -> (r: Result<Option<ParsedMessage>, DltParseError>)
    ensures
        final(reader).spec_with_storage_header() == old(reader).spec_with_storage_header(),
        match r {
            Ok(Some(parsed)) => spec_read_message(
                old(reader).spec_remaining(),
                spec_opt_filter(filter_config_opt),
                old(reader).spec_with_storage_header(),
            ) == Ok::<_, ParseErrorKind>(Some(parsed@)),
            Ok(None) => spec_read_message(
                old(reader).spec_remaining(),
                spec_opt_filter(filter_config_opt),
                old(reader).spec_with_storage_header(),
            ) == Ok::<Option<ParsedMessageView>, ParseErrorKind>(None),
            Err(e) => spec_read_message(
                old(reader).spec_remaining(),
                spec_opt_filter(filter_config_opt),
                old(reader).spec_with_storage_header(),
            ) == Err::<Option<ParsedMessageView>, _>(e.kind()),
        },
{
    let with_storage_header = reader.with_storage_header();
    let slice = reader.next_message_slice()?;
    if slice.len() != 0 {
        let (_, parsed) = dlt_message(slice, filter_config_opt, with_storage_header)?;
        Ok(Some(parsed))
    } else {
        Ok(None)
    }
}

} // verus!
