//! # Messages and their payloads
//!
//! A message is a standard header, an optional extended header and a
//! payload, with a storage header in front where the message was stored.
//! The payload comes in four forms, see [`PayloadContent`].
use crate::argument::{put_bytes, Argument, ArgumentView};
use crate::dlt::{ControlType, Endianness, MessageType, StringCoding, TypeInfo, TypeInfoKind};
use crate::header::{
    spec_opt_extended, spec_opt_storage, ExtendedHeader, ExtendedHeaderView, StandardHeader,
    StandardHeaderView, StorageHeader, StorageHeaderView,
};
use crate::verbose::spec_argument_views;
use crate::wire::{put_u16, put_u32, spec_u16_bytes, spec_u32_bytes};
use vstd::prelude::*;

verus! {

/// The payload of a message.
#[derive(Debug, Clone, PartialEq, Eq)]
pub enum PayloadContent {
    /// Arguments that describe themselves.
    Verbose(Vec<Argument>),
    /// A message id and bytes whose meaning is described elsewhere.
    NonVerbose(u32, Vec<u8>),
    /// A control message: its kind and opaque bytes.
    ControlMsg(ControlType, Vec<u8>),
    /// A network trace: a list of opaque byte chunks.
    NetworkTrace(Vec<Vec<u8>>),
}

/// Mathematical value of a [`PayloadContent`].
pub enum PayloadContentView {
    Verbose(Seq<ArgumentView>),
    NonVerbose(u32, Seq<u8>),
    ControlMsg(ControlType, Seq<u8>),
    NetworkTrace(Seq<Seq<u8>>),
}

/// Mathematical value of a list of byte chunks.
pub open spec fn spec_chunk_views(chunks: Seq<Vec<u8>>) -> Seq<Seq<u8>> {
    Seq::new(chunks.len(), |i: int| chunks[i]@)
}

impl View for PayloadContent {
    type V = PayloadContentView;

    open spec fn view(&self) -> PayloadContentView {
        match *self {
            PayloadContent::Verbose(args) => PayloadContentView::Verbose(
                spec_argument_views(args@),
            ),
            PayloadContent::NonVerbose(id, bytes) => PayloadContentView::NonVerbose(id, bytes@),
            PayloadContent::ControlMsg(kind, bytes) => PayloadContentView::ControlMsg(
                kind,
                bytes@,
            ),
            PayloadContent::NetworkTrace(chunks) => PayloadContentView::NetworkTrace(
                spec_chunk_views(chunks@),
            ),
        }
    }
}

/// The type descriptor in front of a chunk of a network trace: raw bytes
/// without name.
pub open spec fn spec_chunk_info() -> TypeInfo {
    TypeInfo {
        kind: TypeInfoKind::Raw,
        coding: StringCoding::ASCII,
        has_variable_info: false,
        has_trace_info: false,
    }
}

/// The type descriptor in front of a chunk of a network trace.
pub fn chunk_info() -> (info: TypeInfo)
    ensures
        info == spec_chunk_info(),
{
    TypeInfo {
        kind: TypeInfoKind::Raw,
        coding: StringCoding::ASCII,
        has_variable_info: false,
        has_trace_info: false,
    }
}

/// The bytes of a list of arguments: those of each argument in turn.
pub open spec fn spec_arguments_bytes(args: Seq<ArgumentView>, e: Endianness) -> Seq<u8>
    decreases args.len(),
{
    if args.len() == 0 {
        Seq::<u8>::empty()
    } else {
        args[0].spec_bytes(e) + spec_arguments_bytes(args.drop_first(), e)
    }
}

/// The bytes of one chunk of a network trace: a type descriptor for raw
/// bytes, the length, the chunk.
pub open spec fn spec_chunk_bytes(chunk: Seq<u8>, e: Endianness) -> Seq<u8> {
    spec_u32_bytes(spec_chunk_info().spec_word(), e) + spec_u16_bytes(chunk.len() as u16, e)
        + chunk
}

/// The bytes of the chunks of a network trace.
pub open spec fn spec_chunks_bytes(chunks: Seq<Seq<u8>>, e: Endianness) -> Seq<u8>
    decreases chunks.len(),
{
    if chunks.len() == 0 {
        Seq::<u8>::empty()
    } else {
        spec_chunk_bytes(chunks[0], e) + spec_chunks_bytes(chunks.drop_first(), e)
    }
}

/// One more argument at the end adds its bytes at the end.
pub proof fn lemma_arguments_bytes_push(args: Seq<ArgumentView>, last: ArgumentView, e: Endianness)
    ensures
        spec_arguments_bytes(args.push(last), e) == spec_arguments_bytes(args, e)
            + last.spec_bytes(e),
    decreases args.len(),
{
    if args.len() == 0 {
        assert(args.push(last).drop_first() =~= Seq::<ArgumentView>::empty());
        assert(spec_arguments_bytes(args.push(last).drop_first(), e) =~= Seq::<u8>::empty());
        assert(spec_arguments_bytes(args, e) =~= Seq::<u8>::empty());
        assert(spec_arguments_bytes(args.push(last), e) =~= last.spec_bytes(e));
    } else {
        assert(args.push(last).drop_first() =~= args.drop_first().push(last));
        lemma_arguments_bytes_push(args.drop_first(), last, e);
        assert(spec_arguments_bytes(args.push(last), e) =~= spec_arguments_bytes(args, e)
            + last.spec_bytes(e));
    }
}

/// One more chunk at the end adds its bytes at the end.
pub proof fn lemma_chunks_bytes_push(chunks: Seq<Seq<u8>>, last: Seq<u8>, e: Endianness)
    ensures
        spec_chunks_bytes(chunks.push(last), e) == spec_chunks_bytes(chunks, e) + spec_chunk_bytes(
            last,
            e,
        ),
    decreases chunks.len(),
{
    if chunks.len() == 0 {
        assert(chunks.push(last).drop_first() =~= Seq::<Seq<u8>>::empty());
        assert(spec_chunks_bytes(chunks.push(last).drop_first(), e) =~= Seq::<u8>::empty());
        assert(spec_chunks_bytes(chunks, e) =~= Seq::<u8>::empty());
        assert(spec_chunks_bytes(chunks.push(last), e) =~= spec_chunk_bytes(last, e));
    } else {
        assert(chunks.push(last).drop_first() =~= chunks.drop_first().push(last));
        lemma_chunks_bytes_push(chunks.drop_first(), last, e);
        assert(spec_chunks_bytes(chunks.push(last), e) =~= spec_chunks_bytes(chunks, e)
            + spec_chunk_bytes(last, e));
    }
}

impl PayloadContentView {
    /// The bytes of the payload.
    pub open spec fn spec_bytes(self, e: Endianness) -> Seq<u8> {
        match self {
            PayloadContentView::Verbose(args) => spec_arguments_bytes(args, e),
            PayloadContentView::NonVerbose(id, bytes) => spec_u32_bytes(id, e) + bytes,
            PayloadContentView::ControlMsg(kind, bytes) => seq![kind.spec_value()] + bytes,
            PayloadContentView::NetworkTrace(chunks) => spec_chunks_bytes(chunks, e),
        }
    }

    /// Whether the payload is a list of self describing items.
    pub open spec fn spec_is_verbose(self) -> bool {
        self is Verbose || self is NetworkTrace
    }

    /// Number of arguments or chunks of the payload.
    pub open spec fn spec_arg_count(self) -> nat {
        match self {
            PayloadContentView::Verbose(args) => args.len(),
            PayloadContentView::NetworkTrace(chunks) => chunks.len(),
            _ => 0,
        }
    }

    /// What the length fields of the wire format can hold.
    pub open spec fn spec_fits(self) -> bool {
        match self {
            PayloadContentView::Verbose(args) => spec_arguments_fit(args),
            PayloadContentView::NetworkTrace(chunks) => spec_chunks_fit(chunks),
            _ => true,
        }
    }
}

/// Every argument keeps within what the length fields can hold.
pub open spec fn spec_arguments_fit(args: Seq<ArgumentView>) -> bool {
    forall|i: int| 0 <= i < args.len() ==> (#[trigger] args[i]).spec_fits()
}

/// Every chunk keeps within what its length field can hold.
pub open spec fn spec_chunks_fit(chunks: Seq<Seq<u8>>) -> bool {
    forall|i: int| 0 <= i < chunks.len() ==> (#[trigger] chunks[i]).len() <= u16::MAX
}

impl PayloadContent {
    /// Whether the payload is a list of self describing items.
    pub fn is_verbose(&self) -> (r: bool)
        ensures
            r == self@.spec_is_verbose(),
    {
        match self {
            PayloadContent::Verbose(_) => true,
            PayloadContent::NetworkTrace(_) => true,
            _ => false,
        }
    }

    /// Number of arguments or chunks of the payload, as far as a byte can
    /// count them.
    pub fn arg_count(&self) -> (n: u8)
        ensures
            self@.spec_arg_count() <= u8::MAX ==> n == self@.spec_arg_count(),
            self@.spec_arg_count() > u8::MAX ==> n == u8::MAX,
    {
        let len: usize = match self {
            PayloadContent::Verbose(args) => args.len(),
            PayloadContent::NetworkTrace(chunks) => chunks.len(),
            _ => 0,
        };
        if len > 255 {
            255
        } else {
            len as u8
        }
    }

    /// Append the bytes of the payload.
    pub fn put(&self, buf: &mut Vec<u8>, e: Endianness)
        requires
            self@.spec_fits(),
        ensures
            final(buf)@ == old(buf)@ + self@.spec_bytes(e),
    {
        match self {
            PayloadContent::Verbose(args) => {
                let mut i: usize = 0;
                assert(spec_argument_views(args@).subrange(0, 0) =~= Seq::<ArgumentView>::empty());
                assert(buf@ =~= old(buf)@ + Seq::<u8>::empty());
                while i < args.len()
                    invariant
                        i <= args@.len(),
                        self@.spec_fits(),
                        self@ == PayloadContentView::Verbose(spec_argument_views(args@)),
                        buf@ == old(buf)@ + spec_arguments_bytes(
                            spec_argument_views(args@).subrange(0, i as int),
                            e,
                        ),
                    decreases args@.len() - i,
                {
                    let ghost views = spec_argument_views(args@);
                    assert(self@ == PayloadContentView::Verbose(views));
                    assert(forall|j: int| 0 <= j < views.len() ==> (#[trigger] views[j]).spec_fits());
                    assert(views[i as int].spec_fits());
                    args[i].put(buf, e);
                    proof {
                        lemma_arguments_bytes_push(views.subrange(0, i as int), views[i as int], e);
                        assert(views.subrange(0, i as int).push(views[i as int]) =~= views.subrange(
                            0,
                            i + 1,
                        ));
                        assert(buf@ =~= old(buf)@ + spec_arguments_bytes(
                            views.subrange(0, i + 1),
                            e,
                        ));
                    }
                    i += 1;
                }
                assert(spec_argument_views(args@).subrange(0, args@.len() as int)
                    =~= spec_argument_views(args@));
            },
            PayloadContent::NonVerbose(id, bytes) => {
                put_u32(buf, *id, e);
                put_bytes(buf, bytes.as_slice());
                assert(buf@ =~= old(buf)@ + (spec_u32_bytes(*id, e) + bytes@));
            },
            PayloadContent::ControlMsg(kind, bytes) => {
                buf.push(kind.value());
                put_bytes(buf, bytes.as_slice());
                assert(buf@ =~= old(buf)@ + (seq![kind.spec_value()] + bytes@));
            },
            PayloadContent::NetworkTrace(chunks) => {
                let mut i: usize = 0;
                assert(spec_chunk_views(chunks@).subrange(0, 0) =~= Seq::<Seq<u8>>::empty());
                assert(buf@ =~= old(buf)@ + Seq::<u8>::empty());
                while i < chunks.len()
                    invariant
                        i <= chunks@.len(),
                        self@.spec_fits(),
                        self@ == PayloadContentView::NetworkTrace(spec_chunk_views(chunks@)),
                        buf@ == old(buf)@ + spec_chunks_bytes(
                            spec_chunk_views(chunks@).subrange(0, i as int),
                            e,
                        ),
                    decreases chunks@.len() - i,
                {
                    let ghost views = spec_chunk_views(chunks@);
                    let ghost before = buf@;
                    assert(self@ == PayloadContentView::NetworkTrace(views));
                    assert(forall|j: int| 0 <= j < views.len() ==> (#[trigger] views[j]).len() <= u16::MAX);
                    assert(views[i as int].len() <= u16::MAX);
                    put_u32(buf, chunk_info().word(), e);
                    put_u16(buf, chunks[i].len() as u16, e);
                    put_bytes(buf, chunks[i].as_slice());
                    proof {
                        assert(buf@ =~= before + spec_chunk_bytes(views[i as int], e));
                        lemma_chunks_bytes_push(views.subrange(0, i as int), views[i as int], e);
                        assert(views.subrange(0, i as int).push(views[i as int]) =~= views.subrange(
                            0,
                            i + 1,
                        ));
                        assert(buf@ =~= old(buf)@ + spec_chunks_bytes(views.subrange(0, i + 1), e));
                    }
                    i += 1;
                }
                assert(spec_chunk_views(chunks@).subrange(0, chunks@.len() as int)
                    =~= spec_chunk_views(chunks@));
            },
        }
    }

    /// Encode the payload.
    pub fn as_bytes(&self, e: Endianness) -> (bytes: Vec<u8>)
        requires
            self@.spec_fits(),
        ensures
            bytes@ == self@.spec_bytes(e),
    {
        let mut buf: Vec<u8> = Vec::new();
        self.put(&mut buf, e);
        assert(buf@ =~= self@.spec_bytes(e));
        buf
    }
}

/// A DLT message.
#[derive(Debug, Clone, PartialEq, Eq)]
pub struct Message {
    pub storage_header: Option<StorageHeader>,
    pub header: StandardHeader,
    pub extended_header: Option<ExtendedHeader>,
    pub payload: PayloadContent,
}

/// Mathematical value of a [`Message`].
pub struct MessageView {
    pub storage_header: Option<StorageHeaderView>,
    pub header: StandardHeaderView,
    pub extended_header: Option<ExtendedHeaderView>,
    pub payload: PayloadContentView,
}

impl View for Message {
    type V = MessageView;

    open spec fn view(&self) -> MessageView {
        MessageView {
            storage_header: spec_opt_storage(self.storage_header),
            header: self.header@,
            extended_header: spec_opt_extended(self.extended_header),
            payload: self.payload@,
        }
    }
}

impl MessageView {
    /// The bytes of the message without its storage header.
    pub open spec fn spec_message_bytes(self) -> Seq<u8> {
        self.header.spec_bytes() + (match self.extended_header {
            Some(h) => h.spec_bytes(),
            None => Seq::<u8>::empty(),
        }) + self.payload.spec_bytes(self.header.endianness)
    }

    /// The bytes of the message, the storage header included where there is
    /// one.
    pub open spec fn spec_bytes(self) -> Seq<u8> {
        (match self.storage_header {
            Some(h) => h.spec_bytes(),
            None => Seq::<u8>::empty(),
        }) + self.spec_message_bytes()
    }

    /// What the length fields of the wire format can hold.
    pub open spec fn spec_fits(self) -> bool {
        &&& self.header.spec_overall_length() <= u16::MAX
        &&& self.payload.spec_fits()
    }
}

/// What is needed to build the extended header of a message.
#[derive(Debug, Clone, PartialEq, Eq)]
pub struct ExtendedHeaderConfig {
    pub message_type: MessageType,
    pub app_id: String,
    pub context_id: String,
}

/// What is needed to build a message.
#[derive(Debug, Clone, PartialEq, Eq)]
pub struct MessageConfig {
    pub version: u8,
    pub counter: u8,
    pub endianness: Endianness,
    pub ecu_id: Option<String>,
    pub session_id: Option<u32>,
    pub timestamp: Option<u32>,
    pub payload: PayloadContent,
    pub extended_header_info: Option<ExtendedHeaderConfig>,
}

impl Message {
    /// Build a message. The headers are made to fit the payload: the length
    /// of the payload is counted, and an extended header says whether the
    /// payload is verbose and how many arguments it has. The payload has
    /// to keep within what the length fields can hold.
    pub fn new(conf: MessageConfig, storage_header: Option<StorageHeader>) -> (message: Message)
        requires
            conf.payload@.spec_fits(),
            conf.payload@.spec_bytes(conf.endianness).len() <= u16::MAX,
            conf.payload@.spec_arg_count() <= u8::MAX,
        ensures
            message.storage_header == storage_header,
            message.payload == conf.payload,
            message@.header == (StandardHeaderView {
                version: conf.version,
                endianness: conf.endianness,
                has_extended_header: conf.extended_header_info is Some,
                message_counter: conf.counter,
                ecu_id: crate::header::spec_opt_text(conf.ecu_id),
                session_id: conf.session_id,
                timestamp: conf.timestamp,
                payload_length: conf.payload@.spec_bytes(conf.endianness).len() as u16,
            }),
            message@.extended_header == (match conf.extended_header_info {
                Some(info) => Some(
                    ExtendedHeaderView {
                        verbose: conf.payload@.spec_is_verbose(),
                        argument_count: conf.payload@.spec_arg_count() as u8,
                        message_type: info.message_type,
                        application_id: info.app_id@,
                        context_id: info.context_id@,
                    },
                ),
                None => None,
            }),
    {
        let payload_length: u16 = conf.payload.as_bytes(conf.endianness).len() as u16;
        let verbose = conf.payload.is_verbose();
        let argument_count = conf.payload.arg_count();
        Message {
            header: StandardHeader {
                version: conf.version,
                endianness: conf.endianness,
                has_extended_header: conf.extended_header_info.is_some(),
                message_counter: conf.counter,
                ecu_id: conf.ecu_id,
                session_id: conf.session_id,
                timestamp: conf.timestamp,
                payload_length,
            },
            extended_header: match conf.extended_header_info {
                Some(info) => Some(
                    ExtendedHeader {
                        verbose,
                        argument_count,
                        message_type: info.message_type,
                        application_id: info.app_id,
                        context_id: info.context_id,
                    },
                ),
                None => None,
            },
            payload: conf.payload,
            storage_header,
        }
    }

    /// Encode the message.
    pub fn as_bytes(&self) -> (bytes: Vec<u8>)
        requires
            self@.spec_fits(),
        ensures
            bytes@ == self@.spec_bytes(),
    {
        let mut buf: Vec<u8> = Vec::new();
        match &self.storage_header {
            Some(h) => {
                let b = h.as_bytes();
                put_bytes(&mut buf, b.as_slice());
            },
            None => {},
        }
        let ghost storage = buf@;
        let header = self.header.as_bytes();
        put_bytes(&mut buf, header.as_slice());
        match &self.extended_header {
            Some(h) => {
                let b = h.as_bytes();
                put_bytes(&mut buf, b.as_slice());
            },
            None => {
                assert(buf@ =~= buf@ + Seq::<u8>::empty());
            },
        }
        self.payload.put(&mut buf, self.header.endianness);
        assert(buf@ =~= storage + self@.spec_message_bytes());
        assert(buf@ =~= self@.spec_bytes());
        buf
    }
}

} // verus!
