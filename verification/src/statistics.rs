//! # Rapidly gather statistics of a DLT source
//!
//! The statistics pass reads the headers of each message and leaves the
//! payload alone. What is to be counted is up to a [`StatisticCollector`];
//! the collector in [`crate::statistics_common`] counts messages by level
//! for each application, context and ECU.
use crate::dlt::{LogLevel, MessageType};
use crate::header::{
    spec_opt_extended, spec_opt_storage, ExtendedHeader, ExtendedHeaderView, StandardHeader,
    StandardHeaderView, StorageHeader, StorageHeaderView,
};
use crate::parse::{
    dlt_extended_header, dlt_standard_header, dlt_storage_header, spec_dlt_standard_header,
    spec_dlt_storage_header, spec_opt_extended_header, DltParseError, ParseErrorKind, SpecParsed,
};
use crate::read::{spec_header_len, spec_next_slice, DltMessageReader, NextSlice};
use vstd::prelude::*;

verus! {

/// Available statistics on a DLT message.
pub struct Statistic<'a> {
    /// The `LogLevel` of the message, if any.
    pub log_level: Option<LogLevel>,
    /// The `StorageHeader` of the message, if any.
    pub storage_header: Option<StorageHeader>,
    /// The `StandardHeader` of the message.
    pub standard_header: StandardHeader,
    /// The `ExtendedHeader` of the message, if any.
    pub extended_header: Option<ExtendedHeader>,
    /// The remaining payload of the message after all headers.
    pub payload: &'a [u8],
    /// Answers if the message's payload is verbose.
    pub is_verbose: bool,
}

/// Mathematical value of a [`Statistic`].
pub struct StatisticView {
    pub log_level: Option<LogLevel>,
    pub storage_header: Option<StorageHeaderView>,
    pub standard_header: StandardHeaderView,
    pub extended_header: Option<ExtendedHeaderView>,
    pub payload: Seq<u8>,
    pub is_verbose: bool,
}

impl<'a> View for Statistic<'a> {
    type V = StatisticView;

    open spec fn view(&self) -> StatisticView {
        StatisticView {
            log_level: self.log_level,
            storage_header: spec_opt_storage(self.storage_header),
            standard_header: self.standard_header@,
            extended_header: spec_opt_extended(self.extended_header),
            payload: self.payload@,
            is_verbose: self.is_verbose,
        }
    }
}

/// Trait for a DLT statistics collector.
///
/// A collector is handed the statistics of each message in turn; an error
/// that it returns ends the pass.
pub trait StatisticCollector {
    fn collect_statistic(&mut self, statistic: Statistic) -> Result<(), DltParseError>;
}

/// The storage header at the start of a message slice, where the source
/// has storage headers.
pub open spec fn spec_slice_start(s: Seq<u8>, with_storage_header: bool) -> SpecParsed<
    Option<StorageHeaderView>,
> {
    if with_storage_header {
        match spec_dlt_storage_header(s) {
            Err(e) => Err(e),
            Ok((rest, None)) => Ok((rest, None)),
            Ok((rest, Some((header, _)))) => Ok((rest, Some(header))),
        }
    } else {
        Ok((s, None))
    }
}

/// The statistics of the message in a slice: its headers, the level of a
/// log message, whether it is verbose, and its undecoded payload.
pub open spec fn spec_statistic(s: Seq<u8>, with_storage_header: bool) -> Result<
    StatisticView,
    ParseErrorKind,
> {
    match spec_slice_start(s, with_storage_header) {
        Err(e) => Err(e),
        Ok((s1, storage_header)) => match spec_dlt_standard_header(s1) {
            Err(e) => Err(e),
            Ok((s2, standard_header)) => match spec_opt_extended_header(
                s2,
                standard_header.has_extended_header,
            ) {
                Err(e) => Err(e),
                Ok((s3, extended_header)) => Ok(
                    StatisticView {
                        log_level: match extended_header {
                            Some(h) => match h.message_type {
                                MessageType::Log(level) => Some(level),
                                _ => None,
                            },
                            None => None,
                        },
                        storage_header,
                        standard_header,
                        extended_header,
                        payload: s3,
                        is_verbose: match extended_header {
                            Some(h) => h.verbose,
                            None => false,
                        },
                    },
                ),
            },
        },
    }
}

/// Decode the headers of the message in `slice`; the payload is not looked
/// at.
pub fn statistic_of<'a>(slice: &'a [u8], with_storage_header: bool) -> (r: Result<
    Statistic<'a>,
    DltParseError,
>)
    ensures
        match r {
            Ok(statistic) => spec_statistic(slice@, with_storage_header) == Ok::<
                _,
                ParseErrorKind,
            >(statistic@),
            Err(e) => spec_statistic(slice@, with_storage_header) == Err::<StatisticView, _>(
                e.kind(),
            ),
        },
{
    let (rest_before_standard_header, storage_header): (&[u8], Option<StorageHeader>) =
        if with_storage_header {
        match dlt_storage_header(slice)? {
            (rest, Some((header, _))) => (rest, Some(header)),
            (rest, None) => (rest, None),
        }
    } else {
        (slice, None)
    };
    let (rest_after_standard_header, standard_header) = dlt_standard_header(
        rest_before_standard_header,
    )?;
    if standard_header.has_extended_header {
        let (rest, header) = dlt_extended_header(rest_after_standard_header)?;
        let log_level = match header.message_type {
            MessageType::Log(level) => Some(level),
            _ => None,
        };
        let is_verbose = header.verbose;
        Ok(
            Statistic {
                log_level,
                storage_header,
                standard_header,
                extended_header: Some(header),
                payload: rest,
                is_verbose,
            },
        )
    } else {
        Ok(
            Statistic {
                log_level: None,
                storage_header,
                standard_header,
                extended_header: None,
                payload: rest_after_standard_header,
                is_verbose: false,
            },
        )
    }
}

/// Whether a source can be cut into message slices up to its end, with
/// headers that can be decoded in every slice.
pub open spec fn spec_source_outcome(remaining: Seq<u8>, with_storage_header: bool) -> Result<
    (),
    ParseErrorKind,
>
    decreases remaining.len(),
{
    match spec_next_slice(remaining, with_storage_header) {
        NextSlice::End => Ok(()),
        NextSlice::BadLength => Err(ParseErrorKind::Unrecoverable),
        NextSlice::Truncated => Err(ParseErrorKind::Unrecoverable),
        NextSlice::Message(n) => match spec_statistic(
            remaining.subrange(0, n as int),
            with_storage_header,
        ) {
            Err(e) => Err(e),
            Ok(_) => spec_source_outcome(
                remaining.subrange(n as int, remaining.len() as int),
                with_storage_header,
            ),
        },
    }
}

/// The next step of a statistics pass over a source of which `remaining`
/// is left: the statistics of the next message, nothing at the end of the
/// source, or the error that ends the pass.
pub open spec fn spec_next_statistic(remaining: Seq<u8>, with_storage_header: bool) -> Result<
    Option<StatisticView>,
    ParseErrorKind,
> {
    match spec_next_slice(remaining, with_storage_header) {
        NextSlice::End => Ok(None),
        NextSlice::BadLength => Err(ParseErrorKind::Unrecoverable),
        NextSlice::Truncated => Err(ParseErrorKind::Unrecoverable),
        NextSlice::Message(n) => match spec_statistic(
            remaining.subrange(0, n as int),
            with_storage_header,
        ) {
            Ok(statistic) => Ok(Some(statistic)),
            Err(e) => Err(e),
        },
    }
}

/// What is left of a source after the next step of a reader: what stands
/// behind the message, or behind a header with a length that cannot be; at
/// the end of the source and after a message that is cut off, nothing.
pub open spec fn spec_left_after_slice(remaining: Seq<u8>, with_storage_header: bool) -> Seq<u8> {
    match spec_next_slice(remaining, with_storage_header) {
        NextSlice::End => Seq::empty(),
        NextSlice::BadLength => remaining.subrange(
            spec_header_len(with_storage_header) as int,
            remaining.len() as int,
        ),
        NextSlice::Truncated => Seq::empty(),
        NextSlice::Message(n) => remaining.subrange(n as int, remaining.len() as int),
    }
}

/// Read the next message slice from the reader and decode its headers.
///
/// This is one step of a statistics pass: `None` at the end of the source,
/// and an error for a slice that cannot be read or whose headers cannot be
/// decoded. The reader has moved past the slice in either case.
pub fn next_statistic<'a>(reader: &mut DltMessageReader<'a>) -> (r: Result<
    Option<Statistic<'a>>,
    DltParseError,
>)
    ensures
        final(reader).spec_with_storage_header() == old(reader).spec_with_storage_header(),
        final(reader).spec_remaining() == spec_left_after_slice(
            old(reader).spec_remaining(),
            old(reader).spec_with_storage_header(),
        ),
        match r {
            Ok(Some(statistic)) => spec_next_statistic(
                old(reader).spec_remaining(),
                old(reader).spec_with_storage_header(),
            ) == Ok::<_, ParseErrorKind>(Some(statistic@)),
            Ok(None) => spec_next_statistic(
                old(reader).spec_remaining(),
                old(reader).spec_with_storage_header(),
            ) == Ok::<Option<StatisticView>, ParseErrorKind>(None),
            Err(e) => spec_next_statistic(
                old(reader).spec_remaining(),
                old(reader).spec_with_storage_header(),
            ) == Err::<Option<StatisticView>, _>(e.kind()),
        },
{
    let with_storage_header = reader.with_storage_header();
    let slice = match reader.next_message_slice() {
        Ok(slice) => slice,
        Err(e) => {
            return Err(e);
        },
    };
    if slice.len() == 0 {
        assert(reader.spec_remaining() =~= Seq::<u8>::empty());
        return Ok(None);
    }
    match statistic_of(slice, with_storage_header) {
        Ok(statistic) => Ok(Some(statistic)),
        Err(e) => Err(e),
    }
}

/// Collect DLT statistics from the given reader.
///
/// The collector is handed the statistics of each message slice in the
/// order of the source, see [`next_statistic`]. The pass ends with the
/// first slice that cannot be read or decoded and with the first error of
/// the collector; it succeeds only if the source was read to its end.
///
/// * A source that holds no further message is read to its end without a
///   call of the collector, and the pass succeeds.
/// * Where the first slice cannot be read or decoded, the collector is not
///   called either, and the pass fails with the error of that slice.
/// * In every other case the collector has a say: the pass hands on its
///   first error.
pub fn collect_statistics<C: StatisticCollector>(
    reader: &mut DltMessageReader,
    collector: &mut C,
) -> (r: Result<(), DltParseError>)
    ensures
        final(reader).spec_with_storage_header() == old(reader).spec_with_storage_header(),
        r is Ok ==> final(reader).spec_remaining().len() == 0,
        r is Ok ==> spec_source_outcome(
            old(reader).spec_remaining(),
            old(reader).spec_with_storage_header(),
        ) is Ok,
        match spec_next_statistic(
            old(reader).spec_remaining(),
            old(reader).spec_with_storage_header(),
        ) {
            Ok(None) => r is Ok,
            Ok(Some(_)) => true,
            Err(e) => r is Err && r->Err_0.kind() == e && final(reader).spec_remaining()
                == spec_left_after_slice(
                old(reader).spec_remaining(),
                old(reader).spec_with_storage_header(),
            ),
        },
{
    let with_storage_header = reader.with_storage_header();
    let ghost mut first = true;
    loop
        invariant_except_break
            spec_source_outcome(old(reader).spec_remaining(), with_storage_header)
                == spec_source_outcome(reader.spec_remaining(), with_storage_header),
            first ==> reader.spec_remaining() == old(reader).spec_remaining(),
        invariant
            reader.spec_with_storage_header() == with_storage_header,
            with_storage_header == old(reader).spec_with_storage_header(),
            !first ==> spec_next_statistic(
                old(reader).spec_remaining(),
                with_storage_header,
            ) matches Ok(Some(_)),
        ensures
            reader.spec_remaining().len() == 0,
            spec_source_outcome(old(reader).spec_remaining(), with_storage_header) is Ok,
            spec_next_statistic(old(reader).spec_remaining(), with_storage_header) is Ok,
        decreases reader.spec_remaining().len(),
    {
        let statistic = match next_statistic(reader) {
            Ok(Some(statistic)) => statistic,
            Ok(None) => {
                break ;
            },
            Err(e) => {
                return Err(e);
            },
        };
        proof {
            first = false;
        }
        match collector.collect_statistic(statistic) {
            Ok(()) => {},
            Err(e) => {
                return Err(e);
            },
        }
    }
    Ok(())
}

} // verus!
