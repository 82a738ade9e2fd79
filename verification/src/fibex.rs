//! # Support for FIBEX files
//!
//! `fibex` contains support for non-verbose message information that is
//! stored in FIBEX files (Field Bus Exchange Format). A FIBEX document
//! describes frames, which are made of PDUs, which are made of signals;
//! the model that is built from it tells for each frame the types of the
//! values that a non-verbose message of that frame carries.
use crate::dlt::{FloatWidth, StringCoding, TypeInfo, TypeInfoKind, TypeLength};
use crate::fibex_reader::{
    read_event, spec_read_event, Error, ErrorKind, FibexEvent, ReaderState,
};
use crate::header::{spec_opt_text, ExtendedHeader};
use crate::xml::{spec_complete, str_eq, XmlItem};
use vstd::hash_map::StringHashMap;
use vstd::prelude::*;
use vstd::string::{StrSliceExecFns, StringExecFns};

verus! {

/// Contains all the paths of FIBEX files that should be combined into the
/// model.
#[derive(Debug, Clone, PartialEq, Eq)]
pub struct FibexConfig {
    pub fibex_file_paths: Vec<String>,
}

/// What a frame is looked up by where the ids of context and application
/// are known.
#[derive(Debug, Clone, PartialEq, Eq, Hash)]
pub struct FrameMetadataIdentification {
    pub context_id: String,
    pub app_id: String,
    pub frame_id: String,
}

/// The types of the values of one PDU.
#[derive(Debug, PartialEq, Eq)]
pub struct PduMetadata {
    pub description: Option<String>,
    pub signal_types: Vec<TypeInfo>,
}

/// Mathematical value of a [`PduMetadata`].
pub struct PduMetadataView {
    pub description: Option<Seq<char>>,
    pub signal_types: Seq<TypeInfo>,
}

impl View for PduMetadata {
    type V = PduMetadataView;

    open spec fn view(&self) -> PduMetadataView {
        PduMetadataView {
            description: spec_opt_text(self.description),
            signal_types: self.signal_types@,
        }
    }
}

/// Mathematical value of a list of PDUs.
pub open spec fn spec_pdu_views(pdus: Seq<PduMetadata>) -> Seq<PduMetadataView> {
    Seq::new(pdus.len(), |i: int| pdus[i]@)
}

/// What the model knows of a frame.
#[derive(Debug, PartialEq, Eq)]
pub struct FrameMetadata {
    pub short_name: String,
    pub pdus: Vec<PduMetadata>,
    pub application_id: Option<String>,
    pub context_id: Option<String>,
    pub message_type: Option<String>,
    pub message_info: Option<String>,
}

/// Mathematical value of a [`FrameMetadata`].
pub struct FrameMetadataView {
    pub short_name: Seq<char>,
    pub pdus: Seq<PduMetadataView>,
    pub application_id: Option<Seq<char>>,
    pub context_id: Option<Seq<char>>,
    pub message_type: Option<Seq<char>>,
    pub message_info: Option<Seq<char>>,
}

impl View for FrameMetadata {
    type V = FrameMetadataView;

    open spec fn view(&self) -> FrameMetadataView {
        FrameMetadataView {
            short_name: self.short_name@,
            pdus: spec_pdu_views(self.pdus@),
            application_id: spec_opt_text(self.application_id),
            context_id: spec_opt_text(self.context_id),
            message_type: spec_opt_text(self.message_type),
            message_info: spec_opt_text(self.message_info),
        }
    }
}

fn clone_text(text: &Option<String>) -> (r: Option<String>)
    ensures
        r == *text,
{
    match text {
        Some(t) => Some(t.clone()),
        None => None,
    }
}

impl PduMetadata {
    /// A copy of the PDU.
    pub fn duplicate(&self) -> (r: PduMetadata)
        ensures
            r@ == self@,
    {
        let mut signal_types: Vec<TypeInfo> = Vec::new();
        let mut i: usize = 0;
        while i < self.signal_types.len()
            invariant
                i <= self.signal_types@.len(),
                signal_types@ == self.signal_types@.subrange(0, i as int),
            decreases self.signal_types@.len() - i,
        {
            signal_types.push(self.signal_types[i]);
            i += 1;
            assert(signal_types@ =~= self.signal_types@.subrange(0, i as int));
        }
        assert(signal_types@ =~= self.signal_types@);
        PduMetadata { description: clone_text(&self.description), signal_types }
    }
}

impl FrameMetadata {
    /// A copy of the frame.
    pub fn duplicate(&self) -> (r: FrameMetadata)
        ensures
            r@ == self@,
    {
        let mut pdus: Vec<PduMetadata> = Vec::new();
        let mut i: usize = 0;
        while i < self.pdus.len()
            invariant
                i <= self.pdus@.len(),
                pdus@.len() == i,
                forall|k: int| 0 <= k < i ==> (#[trigger] pdus@[k])@ == self.pdus@[k]@,
            decreases self.pdus@.len() - i,
        {
            pdus.push(self.pdus[i].duplicate());
            i += 1;
        }
        assert(spec_pdu_views(pdus@) =~= spec_pdu_views(self.pdus@));
        FrameMetadata {
            short_name: self.short_name.clone(),
            pdus,
            application_id: clone_text(&self.application_id),
            context_id: clone_text(&self.context_id),
            message_type: clone_text(&self.message_type),
            message_info: clone_text(&self.message_info),
        }
    }
}

/// The type descriptor of a value of the given kind: without name, without
/// trace info, and with ASCII as coding.
pub open spec fn spec_plain(kind: TypeInfoKind) -> TypeInfo {
    TypeInfo { kind, coding: StringCoding::ASCII, has_variable_info: false, has_trace_info: false }
}

fn plain(kind: TypeInfoKind) -> (info: TypeInfo)
    ensures
        info == spec_plain(kind),
{
    TypeInfo { kind, coding: StringCoding::ASCII, has_variable_info: false, has_trace_info: false }
}

/// The type descriptor of a UTF-8 string.
pub open spec fn spec_utf8_string() -> TypeInfo {
    TypeInfo {
        kind: TypeInfoKind::StringType,
        coding: StringCoding::UTF8,
        has_variable_info: false,
        has_trace_info: false,
    }
}

/// The type that one of the predefined signals has; `None` for any other
/// name, where the outer `Option` is `Some`, and `Some(None)` for the 16
/// bit float, which is not supported.
pub open spec fn spec_predefined_signal(signal: Seq<char>) -> Option<Option<TypeInfo>> {
    if signal == "S_BOOL"@ {
        Some(Some(spec_plain(TypeInfoKind::Bool)))
    } else if signal == "S_SINT8"@ {
        Some(Some(spec_plain(TypeInfoKind::Signed(TypeLength::BitLength8))))
    } else if signal == "S_UINT8"@ {
        Some(Some(spec_plain(TypeInfoKind::Unsigned(TypeLength::BitLength8))))
    } else if signal == "S_SINT16"@ {
        Some(Some(spec_plain(TypeInfoKind::Signed(TypeLength::BitLength16))))
    } else if signal == "S_UINT16"@ {
        Some(Some(spec_plain(TypeInfoKind::Unsigned(TypeLength::BitLength16))))
    } else if signal == "S_SINT32"@ {
        Some(Some(spec_plain(TypeInfoKind::Signed(TypeLength::BitLength32))))
    } else if signal == "S_UINT32"@ {
        Some(Some(spec_plain(TypeInfoKind::Unsigned(TypeLength::BitLength32))))
    } else if signal == "S_SINT64"@ {
        Some(Some(spec_plain(TypeInfoKind::Signed(TypeLength::BitLength64))))
    } else if signal == "S_UINT64"@ {
        Some(Some(spec_plain(TypeInfoKind::Unsigned(TypeLength::BitLength64))))
    } else if signal == "S_FLOA16"@ {
        Some(None)
    } else if signal == "S_FLOA32"@ {
        Some(Some(spec_plain(TypeInfoKind::Float(FloatWidth::Width32))))
    } else if signal == "S_FLOA64"@ {
        Some(Some(spec_plain(TypeInfoKind::Float(FloatWidth::Width64))))
    } else if signal == "S_STRG_ASCII"@ {
        Some(Some(spec_plain(TypeInfoKind::StringType)))
    } else if signal == "S_STRG_UTF8"@ {
        Some(Some(spec_utf8_string()))
    } else if signal == "S_RAWD"@ || signal == "S_RAW"@ {
        Some(Some(spec_plain(TypeInfoKind::Raw)))
    } else {
        None
    }
}

/// The type that a base data type of a coding stands for.
pub open spec fn spec_base_type(base: Seq<char>) -> Option<TypeInfo> {
    if base == "A_UINT8"@ {
        Some(spec_plain(TypeInfoKind::Unsigned(TypeLength::BitLength8)))
    } else if base == "A_INT8"@ || base == "A_SINT8"@ {
        Some(spec_plain(TypeInfoKind::Signed(TypeLength::BitLength8)))
    } else if base == "A_UINT16"@ {
        Some(spec_plain(TypeInfoKind::Unsigned(TypeLength::BitLength16)))
    } else if base == "A_INT16"@ || base == "A_SINT16"@ {
        Some(spec_plain(TypeInfoKind::Signed(TypeLength::BitLength16)))
    } else if base == "A_UINT32"@ {
        Some(spec_plain(TypeInfoKind::Unsigned(TypeLength::BitLength32)))
    } else if base == "A_INT32"@ || base == "A_SINT32"@ {
        Some(spec_plain(TypeInfoKind::Signed(TypeLength::BitLength32)))
    } else if base == "A_UINT64"@ {
        Some(spec_plain(TypeInfoKind::Unsigned(TypeLength::BitLength64)))
    } else if base == "A_INT64"@ || base == "A_SINT64"@ {
        Some(spec_plain(TypeInfoKind::Signed(TypeLength::BitLength64)))
    } else if base == "A_FLOAT32"@ {
        Some(spec_plain(TypeInfoKind::Float(FloatWidth::Width32)))
    } else if base == "A_FLOAT64"@ {
        Some(spec_plain(TypeInfoKind::Float(FloatWidth::Width64)))
    } else if base == "A_ASCIISTRING"@ {
        Some(spec_plain(TypeInfoKind::StringType))
    } else if base == "A_UNICODE2STRING"@ {
        Some(spec_utf8_string())
    } else {
        None
    }
}

/// The type of the values of a signal: that of a predefined signal, or
/// else the type that the base data type of the coding of the signal stands
/// for. A signal that is unknown, that has no coding or whose base data
/// type is unknown has no type.
pub open spec fn spec_type_info_for_signal_ref(
    signal_ref: Seq<char>,
    signals: Map<Seq<char>, String>,
    codings: Map<Seq<char>, String>,
) -> Option<TypeInfo> {
    match spec_predefined_signal(signal_ref) {
        Some(info) => info,
        None => if signals.contains_key(signal_ref) && codings.contains_key(
            signals[signal_ref]@,
        ) {
            spec_base_type(codings[signals[signal_ref]@]@)
        } else {
            None
        },
    }
}

fn predefined_signal(signal: &str) -> (r: Option<Option<TypeInfo>>)
    ensures
        r == spec_predefined_signal(signal@),
{
    if str_eq(signal, "S_BOOL") {
        Some(Some(plain(TypeInfoKind::Bool)))
    } else if str_eq(signal, "S_SINT8") {
        Some(Some(plain(TypeInfoKind::Signed(TypeLength::BitLength8))))
    } else if str_eq(signal, "S_UINT8") {
        Some(Some(plain(TypeInfoKind::Unsigned(TypeLength::BitLength8))))
    } else if str_eq(signal, "S_SINT16") {
        Some(Some(plain(TypeInfoKind::Signed(TypeLength::BitLength16))))
    } else if str_eq(signal, "S_UINT16") {
        Some(Some(plain(TypeInfoKind::Unsigned(TypeLength::BitLength16))))
    } else if str_eq(signal, "S_SINT32") {
        Some(Some(plain(TypeInfoKind::Signed(TypeLength::BitLength32))))
    } else if str_eq(signal, "S_UINT32") {
        Some(Some(plain(TypeInfoKind::Unsigned(TypeLength::BitLength32))))
    } else if str_eq(signal, "S_SINT64") {
        Some(Some(plain(TypeInfoKind::Signed(TypeLength::BitLength64))))
    } else if str_eq(signal, "S_UINT64") {
        Some(Some(plain(TypeInfoKind::Unsigned(TypeLength::BitLength64))))
    } else if str_eq(signal, "S_FLOA16") {
        Some(None)
    } else if str_eq(signal, "S_FLOA32") {
        Some(Some(plain(TypeInfoKind::Float(FloatWidth::Width32))))
    } else if str_eq(signal, "S_FLOA64") {
        Some(Some(plain(TypeInfoKind::Float(FloatWidth::Width64))))
    } else if str_eq(signal, "S_STRG_ASCII") {
        Some(Some(plain(TypeInfoKind::StringType)))
    } else if str_eq(signal, "S_STRG_UTF8") {
        Some(
            Some(
                TypeInfo {
                    kind: TypeInfoKind::StringType,
                    coding: StringCoding::UTF8,
                    has_variable_info: false,
                    has_trace_info: false,
                },
            ),
        )
    } else if str_eq(signal, "S_RAWD") || str_eq(signal, "S_RAW") {
        Some(Some(plain(TypeInfoKind::Raw)))
    } else {
        None
    }
}

fn base_type(base: &str) -> (r: Option<TypeInfo>)
    ensures
        r == spec_base_type(base@),
{
    if str_eq(base, "A_UINT8") {
        Some(plain(TypeInfoKind::Unsigned(TypeLength::BitLength8)))
    } else if str_eq(base, "A_INT8") || str_eq(base, "A_SINT8") {
        Some(plain(TypeInfoKind::Signed(TypeLength::BitLength8)))
    } else if str_eq(base, "A_UINT16") {
        Some(plain(TypeInfoKind::Unsigned(TypeLength::BitLength16)))
    } else if str_eq(base, "A_INT16") || str_eq(base, "A_SINT16") {
        Some(plain(TypeInfoKind::Signed(TypeLength::BitLength16)))
    } else if str_eq(base, "A_UINT32") {
        Some(plain(TypeInfoKind::Unsigned(TypeLength::BitLength32)))
    } else if str_eq(base, "A_INT32") || str_eq(base, "A_SINT32") {
        Some(plain(TypeInfoKind::Signed(TypeLength::BitLength32)))
    } else if str_eq(base, "A_UINT64") {
        Some(plain(TypeInfoKind::Unsigned(TypeLength::BitLength64)))
    } else if str_eq(base, "A_INT64") || str_eq(base, "A_SINT64") {
        Some(plain(TypeInfoKind::Signed(TypeLength::BitLength64)))
    } else if str_eq(base, "A_FLOAT32") {
        Some(plain(TypeInfoKind::Float(FloatWidth::Width32)))
    } else if str_eq(base, "A_FLOAT64") {
        Some(plain(TypeInfoKind::Float(FloatWidth::Width64)))
    } else if str_eq(base, "A_ASCIISTRING") {
        Some(plain(TypeInfoKind::StringType))
    } else if str_eq(base, "A_UNICODE2STRING") {
        Some(
            TypeInfo {
                kind: TypeInfoKind::StringType,
                coding: StringCoding::UTF8,
                has_variable_info: false,
                has_trace_info: false,
            },
        )
    } else {
        None
    }
}

/// The type of the values of a signal, see
/// [`spec_type_info_for_signal_ref`].
pub fn type_info_for_signal_ref(
    signal_ref: &str,
    signals: &StringHashMap<String>,
    codings: &StringHashMap<String>,
) -> (r: Option<TypeInfo>)
    ensures
        r == spec_type_info_for_signal_ref(signal_ref@, signals@, codings@),
{
    match predefined_signal(signal_ref) {
        Some(info) => info,
        None => match signals.get(signal_ref) {
            Some(coding) => match codings.get(coding.as_str()) {
                Some(base) => base_type(base.as_str()),
                None => None,
            },
            None => None,
        },
    }
}

/// Number of entries at the start of `sorted` whose sequence number is not
/// above `number`.
pub open spec fn spec_insert_position(sorted: Seq<(usize, String)>, number: usize) -> int
    decreases sorted.len(),
{
    if sorted.len() == 0 || sorted[0].0 > number {
        0
    } else {
        1 + spec_insert_position(sorted.drop_first(), number)
    }
}

/// The entries in the order of their sequence numbers; entries of the same
/// number keep their order.
pub open spec fn spec_by_sequence_number(entries: Seq<(usize, String)>) -> Seq<(usize, String)>
    decreases entries.len(),
{
    if entries.len() == 0 {
        entries
    } else {
        let sorted = spec_by_sequence_number(entries.drop_last());
        sorted.insert(spec_insert_position(sorted, entries.last().0), entries.last())
    }
}

/// The second parts of the entries.
pub open spec fn spec_values(entries: Seq<(usize, String)>) -> Seq<String> {
    Seq::new(entries.len(), |i: int| entries[i].1)
}

/// Whether the sequence numbers never fall.
pub open spec fn spec_ascending(entries: Seq<(usize, String)>) -> bool {
    forall|i: int, j: int| 0 <= i <= j < entries.len() ==> entries[i].0 <= entries[j].0
}

/// Where a new entry goes: behind every entry of a number that is not
/// above its own, in front of every entry of a larger number.
pub proof fn lemma_insert_position(sorted: Seq<(usize, String)>, number: usize)
    requires
        spec_ascending(sorted),
    ensures
        0 <= spec_insert_position(sorted, number) <= sorted.len(),
        forall|j: int| 0 <= j < spec_insert_position(sorted, number) ==> sorted[j].0 <= number,
        forall|j: int|
            spec_insert_position(sorted, number) <= j < sorted.len() ==> sorted[j].0 > number,
    decreases sorted.len(),
{
    if sorted.len() != 0 {
        assert forall|i: int, j: int| 0 <= i <= j < sorted.drop_first().len() implies sorted.drop_first()[i].0
            <= sorted.drop_first()[j].0 by {
            assert(sorted.drop_first()[i] == sorted[i + 1]);
            assert(sorted.drop_first()[j] == sorted[j + 1]);
        }
        if sorted[0].0 > number {
            assert forall|j: int| 0 <= j < sorted.len() implies sorted[j].0 > number by {
                assert(sorted[0].0 <= sorted[j].0);
            }
        } else {
            lemma_insert_position(sorted.drop_first(), number);
            let p = spec_insert_position(sorted.drop_first(), number);
            assert forall|j: int| 0 <= j < p + 1 implies sorted[j].0 <= number by {
                if j > 0 {
                    assert(sorted.drop_first()[j - 1] == sorted[j]);
                }
            }
            assert forall|j: int| p + 1 <= j < sorted.len() implies sorted[j].0 > number by {
                assert(sorted.drop_first()[j - 1] == sorted[j]);
            }
        }
    }
}

/// The entries in the order of their sequence numbers are as many as
/// before, and their numbers never fall.
pub proof fn lemma_by_sequence_number_ascending(entries: Seq<(usize, String)>)
    ensures
        spec_by_sequence_number(entries).len() == entries.len(),
        spec_ascending(spec_by_sequence_number(entries)),
    decreases entries.len(),
{
    if entries.len() != 0 {
        lemma_by_sequence_number_ascending(entries.drop_last());
        let sorted = spec_by_sequence_number(entries.drop_last());
        lemma_insert_position(sorted, entries.last().0);
    }
}

/// Putting entries in the order of their sequence numbers neither loses nor
/// adds an entry.
pub proof fn lemma_by_sequence_number_permutes(entries: Seq<(usize, String)>)
    ensures
        spec_by_sequence_number(entries).to_multiset() == entries.to_multiset(),
    decreases entries.len(),
{
    if entries.len() != 0 {
        let front = entries.drop_last();
        let sorted = spec_by_sequence_number(front);
        lemma_by_sequence_number_permutes(front);
        lemma_by_sequence_number_ascending(front);
        lemma_insert_position(sorted, entries.last().0);
        vstd::seq_lib::to_multiset_insert(
            sorted,
            spec_insert_position(sorted, entries.last().0),
            entries.last(),
        );
        vstd::seq_lib::to_multiset_build(front, entries.last());
        assert(front.push(entries.last()) =~= entries);
    }
}

/// Put the entries in the order of their sequence numbers and keep their
/// second parts.
pub fn values_by_sequence_number(entries: Vec<(usize, String)>) -> (r: Vec<String>)
    ensures
        r@ == spec_values(spec_by_sequence_number(entries@)),
{
    let mut sorted: Vec<(usize, String)> = Vec::new();
    let mut i: usize = 0;
    assert(entries@.subrange(0, 0) =~= Seq::<(usize, String)>::empty());
    while i < entries.len()
        invariant
            i <= entries@.len(),
            sorted@ == spec_by_sequence_number(entries@.subrange(0, i as int)),
        decreases entries@.len() - i,
    {
        let number = entries[i].0;
        let mut at: usize = 0;
        assert(sorted@.subrange(0, sorted@.len() as int) =~= sorted@);
        while at < sorted.len() && sorted[at].0 <= number
            invariant
                at <= sorted@.len(),
                spec_insert_position(sorted@, number) == at + spec_insert_position(
                    sorted@.subrange(at as int, sorted@.len() as int),
                    number,
                ),
            decreases sorted@.len() - at,
        {
            assert(sorted@.subrange(at as int, sorted@.len() as int).drop_first()
                =~= sorted@.subrange(at + 1, sorted@.len() as int));
            at += 1;
        }
        proof {
            assert(entries@.subrange(0, i + 1).drop_last() =~= entries@.subrange(0, i as int));
            assert(entries@.subrange(0, i + 1).last() == entries@[i as int]);
        }
        sorted.insert(at, (number, entries[i].1.clone()));
        i += 1;
    }
    assert(entries@.subrange(0, entries@.len() as int) =~= entries@);
    let mut values: Vec<String> = Vec::new();
    let mut j: usize = 0;
    while j < sorted.len()
        invariant
            j <= sorted@.len(),
            values@ == spec_values(sorted@).subrange(0, j as int),
        decreases sorted@.len() - j,
    {
        values.push(sorted[j].1.clone());
        j += 1;
        assert(values@ =~= spec_values(sorted@).subrange(0, j as int));
    }
    assert(values@ =~= spec_values(sorted@));
    values
}

/// What was read of a PDU: its description and the signals that its values
/// refer to, in the order of their sequence numbers.
#[derive(Debug, PartialEq, Eq)]
pub struct PduRead {
    pub id: String,
    pub description: Option<String>,
    pub signal_refs: Vec<String>,
}

/// Mathematical value of a [`PduRead`].
pub struct PduReadView {
    pub id: String,
    pub description: Option<String>,
    pub signal_refs: Seq<String>,
}

impl View for PduRead {
    type V = PduReadView;

    open spec fn view(&self) -> PduReadView {
        PduReadView { id: self.id, description: self.description, signal_refs: self.signal_refs@ }
    }
}

/// What was read of a frame: its names and the PDUs that it refers to, in
/// the order of their sequence numbers.
#[derive(Debug, PartialEq, Eq)]
pub struct FrameRead {
    pub id: String,
    pub short_name: String,
    pub context_id: Option<String>,
    pub application_id: Option<String>,
    pub message_type: Option<String>,
    pub message_info: Option<String>,
    pub pdu_refs: Vec<String>,
}

/// Mathematical value of a [`FrameRead`].
pub struct FrameReadView {
    pub id: String,
    pub short_name: String,
    pub context_id: Option<String>,
    pub application_id: Option<String>,
    pub message_type: Option<String>,
    pub message_info: Option<String>,
    pub pdu_refs: Seq<String>,
}

impl View for FrameRead {
    type V = FrameReadView;

    open spec fn view(&self) -> FrameReadView {
        FrameReadView {
            id: self.id,
            short_name: self.short_name,
            context_id: self.context_id,
            application_id: self.application_id,
            message_type: self.message_type,
            message_info: self.message_info,
            pdu_refs: self.pdu_refs@,
        }
    }
}

/// The rest of a PDU whose start was read: the signal instances up to the
/// end of the PDU are gathered in `refs`. A document that ends inside the
/// PDU is a structural error.
pub open spec fn spec_read_pdu(
    id: String,
    s: ReaderState,
    items: Seq<XmlItem>,
    i: int,
    refs: Seq<(usize, String)>,
) -> Result<(PduReadView, ReaderState, int), ErrorKind>
    decreases items.len() - i,
{
    match spec_read_event(s, items, i) {
        Err(k) => Err(k),
        Ok((event, s1, j)) => match event {
            FibexEvent::PduEnd { description, .. } => Ok(
                (
                    PduReadView {
                        id,
                        description,
                        signal_refs: spec_values(spec_by_sequence_number(refs)),
                    },
                    s1,
                    j,
                ),
            ),
            FibexEvent::Eof => Err(ErrorKind::FibexStructure),
            FibexEvent::SignalInstance { sequence_number, signal_ref, .. } => if i < j
                <= items.len() {
                spec_read_pdu(id, s1, items, j, refs.push((sequence_number, signal_ref)))
            } else {
                Err(ErrorKind::Xml)
            },
            _ => if i < j <= items.len() {
                spec_read_pdu(id, s1, items, j, refs)
            } else {
                Err(ErrorKind::Xml)
            },
        },
    }
}

/// What a frame knows of itself while it is read.
pub struct FrameInfo {
    pub context_id: Option<String>,
    pub application_id: Option<String>,
    pub message_type: Option<String>,
    pub message_info: Option<String>,
}

/// The rest of a frame whose start was read: the PDU instances up to the
/// end of the frame are gathered in `refs`, and the last manufacturer
/// extension tells the ids and the type of the message.
pub open spec fn spec_read_frame(
    id: String,
    s: ReaderState,
    items: Seq<XmlItem>,
    i: int,
    refs: Seq<(usize, String)>,
    info: FrameInfo,
) -> Result<(FrameReadView, ReaderState, int), ErrorKind>
    decreases items.len() - i,
{
    match spec_read_event(s, items, i) {
        Err(k) => Err(k),
        Ok((event, s1, j)) => match event {
            FibexEvent::FrameEnd { short_name, .. } => Ok(
                (
                    FrameReadView {
                        id,
                        short_name,
                        context_id: info.context_id,
                        application_id: info.application_id,
                        message_type: info.message_type,
                        message_info: info.message_info,
                        pdu_refs: spec_values(spec_by_sequence_number(refs)),
                    },
                    s1,
                    j,
                ),
            ),
            FibexEvent::Eof => Err(ErrorKind::FibexStructure),
            FibexEvent::PduInstance { sequence_number, pdu_ref, .. } => if i < j <= items.len() {
                spec_read_frame(id, s1, items, j, refs.push((sequence_number, pdu_ref)), info)
            } else {
                Err(ErrorKind::Xml)
            },
            FibexEvent::ManufacturerExtension {
                context_id,
                application_id,
                message_type,
                message_info,
            } => if i < j <= items.len() {
                spec_read_frame(
                    id,
                    s1,
                    items,
                    j,
                    refs,
                    FrameInfo { context_id, application_id, message_type, message_info },
                )
            } else {
                Err(ErrorKind::Xml)
            },
            _ => if i < j <= items.len() {
                spec_read_frame(id, s1, items, j, refs, info)
            } else {
                Err(ErrorKind::Xml)
            },
        },
    }
}

/// What was gathered from the documents that were read so far.
pub struct Gathered {
    pub pdus: Vec<PduRead>,
    pub frames: Vec<FrameRead>,
    pub signals: StringHashMap<String>,
    pub codings: StringHashMap<String>,
}

/// Mathematical value of a [`Gathered`]: the PDUs and frames in the order in
/// which they were read, the coding of each signal and the base data type
/// of each coding.
pub struct GatheredView {
    pub pdus: Seq<PduReadView>,
    pub frames: Seq<FrameReadView>,
    pub signals: Map<Seq<char>, String>,
    pub codings: Map<Seq<char>, String>,
}

/// Mathematical value of a list of PDUs that were read.
pub open spec fn spec_pdu_reads(pdus: Seq<PduRead>) -> Seq<PduReadView> {
    Seq::new(pdus.len(), |i: int| pdus[i]@)
}

/// Mathematical value of a list of frames that were read.
pub open spec fn spec_frame_reads(frames: Seq<FrameRead>) -> Seq<FrameReadView> {
    Seq::new(frames.len(), |i: int| frames[i]@)
}

impl View for Gathered {
    type V = GatheredView;

    open spec fn view(&self) -> GatheredView {
        GatheredView {
            pdus: spec_pdu_reads(self.pdus@),
            frames: spec_frame_reads(self.frames@),
            signals: self.signals@,
            codings: self.codings@,
        }
    }
}

/// What is gathered from the tokens of a document from index `i` on, on top
/// of what was gathered before.
pub open spec fn spec_gather(g: GatheredView, s: ReaderState, items: Seq<XmlItem>, i: int) -> Result<
    GatheredView,
    ErrorKind,
>
    decreases items.len() - i,
{
    match spec_read_event(s, items, i) {
        Err(k) => Err(k),
        Ok((event, s1, j)) => match event {
            FibexEvent::Eof => Ok(g),
            FibexEvent::PduStart { id } => match spec_read_pdu(
                id,
                s1,
                items,
                j,
                Seq::<(usize, String)>::empty(),
            ) {
                Err(k) => Err(k),
                Ok((pdu, s2, j2)) => if i < j2 <= items.len() {
                    spec_gather(GatheredView { pdus: g.pdus.push(pdu), ..g }, s2, items, j2)
                } else {
                    Err(ErrorKind::Xml)
                },
            },
            FibexEvent::FrameStart { id } => match spec_read_frame(
                id,
                s1,
                items,
                j,
                Seq::<(usize, String)>::empty(),
                FrameInfo {
                    context_id: None,
                    application_id: None,
                    message_type: None,
                    message_info: None,
                },
            ) {
                Err(k) => Err(k),
                Ok((frame, s2, j2)) => if i < j2 <= items.len() {
                    spec_gather(GatheredView { frames: g.frames.push(frame), ..g }, s2, items, j2)
                } else {
                    Err(ErrorKind::Xml)
                },
            },
            FibexEvent::Signal { id, coding_ref } => if i < j <= items.len() {
                spec_gather(
                    GatheredView { signals: g.signals.insert(id@, coding_ref), ..g },
                    s1,
                    items,
                    j,
                )
            } else {
                Err(ErrorKind::Xml)
            },
            FibexEvent::Coding { id, base_data_type } => if i < j <= items.len() {
                spec_gather(
                    GatheredView { codings: g.codings.insert(id@, base_data_type), ..g },
                    s1,
                    items,
                    j,
                )
            } else {
                Err(ErrorKind::Xml)
            },
            _ => if i < j <= items.len() {
                spec_gather(g, s1, items, j)
            } else {
                Err(ErrorKind::Xml)
            },
        },
    }
}

impl Gathered {
    /// Nothing gathered yet.
    pub fn new() -> (g: Gathered)
        ensures
            g@.pdus.len() == 0,
            g@.frames.len() == 0,
            g@.signals == Map::<Seq<char>, String>::empty(),
            g@.codings == Map::<Seq<char>, String>::empty(),
    {
        Gathered {
            pdus: Vec::new(),
            frames: Vec::new(),
            signals: StringHashMap::new(),
            codings: StringHashMap::new(),
        }
    }

    /// Gather what the tokens of one document describe.
    pub fn gather(&mut self, items: &Vec<XmlItem>, document: &[u8]) -> (r: Result<(), Error>)
        requires
            spec_complete(items@),
        ensures
            match r {
                Ok(()) => spec_gather(old(self)@, ReaderState::spec_new(), items@, 0) == Ok::<
                    _,
                    ErrorKind,
                >(final(self)@),
                Err(e) => spec_gather(old(self)@, ReaderState::spec_new(), items@, 0) is Err
                    && e.spec_tells(
                    spec_gather(old(self)@, ReaderState::spec_new(), items@, 0)->Err_0,
                    document@,
                ),
            },
    {
        let mut state = ReaderState::new();
        let mut at: usize = 0;
        loop
            invariant
                at < items@.len(),
                spec_complete(items@),
                spec_gather(old(self)@, ReaderState::spec_new(), items@, 0) == spec_gather(
                    self@,
                    state,
                    items@,
                    at as int,
                ),
            decreases items@.len() - at,
        {
            let ghost before = self@;
            let (event, after, next) = read_event(state, items, at, document)?;
            match event {
                FibexEvent::Eof => {
                    return Ok(());
                },
                FibexEvent::PduStart { id } => {
                    let (pdu, s2, j2) = read_pdu(id, after, items, next, document)?;
                    if j2 <= at {
                        return Err(Error::Xml("the document has no end".to_owned()));
                    }
                    self.pdus.push(pdu);
                    assert(self@.pdus =~= before.pdus.push(pdu@));
                    assert(self@.frames =~= before.frames);
                    state = s2;
                    at = j2;
                },
                FibexEvent::FrameStart { id } => {
                    let (frame, s2, j2) = read_frame(id, after, items, next, document)?;
                    if j2 <= at {
                        return Err(Error::Xml("the document has no end".to_owned()));
                    }
                    self.frames.push(frame);
                    assert(self@.frames =~= before.frames.push(frame@));
                    assert(self@.pdus =~= before.pdus);
                    state = s2;
                    at = j2;
                },
                FibexEvent::Signal { id, coding_ref } => {
                    if next <= at {
                        return Err(Error::Xml("the document has no end".to_owned()));
                    }
                    self.signals.insert(id, coding_ref);
                    state = after;
                    at = next;
                },
                FibexEvent::Coding { id, base_data_type } => {
                    if next <= at {
                        return Err(Error::Xml("the document has no end".to_owned()));
                    }
                    self.codings.insert(id, base_data_type);
                    state = after;
                    at = next;
                },
                _ => {
                    if next <= at {
                        return Err(Error::Xml("the document has no end".to_owned()));
                    }
                    state = after;
                    at = next;
                },
            }
        }
    }
}

/// The types of the signals that the values of a PDU refer to: signals
/// without type are left out.
pub open spec fn spec_signal_types(
    refs: Seq<String>,
    signals: Map<Seq<char>, String>,
    codings: Map<Seq<char>, String>,
) -> Seq<TypeInfo>
    decreases refs.len(),
{
    if refs.len() == 0 {
        Seq::<TypeInfo>::empty()
    } else {
        let front = spec_signal_types(refs.drop_last(), signals, codings);
        match spec_type_info_for_signal_ref(refs.last()@, signals, codings) {
            Some(info) => front.push(info),
            None => front,
        }
    }
}

/// The PDUs by their ids, made of the first `n` PDUs that were read: of
/// PDUs with the same id the first counts.
pub open spec fn spec_pdu_map(g: GatheredView, n: int) -> Map<Seq<char>, PduMetadataView>
    decreases n,
{
    if n <= 0 || n > g.pdus.len() {
        Map::empty()
    } else {
        let map = spec_pdu_map(g, n - 1);
        let pdu = g.pdus[n - 1];
        if map.contains_key(pdu.id@) {
            map
        } else {
            map.insert(
                pdu.id@,
                PduMetadataView {
                    description: spec_opt_text(pdu.description),
                    signal_types: spec_signal_types(pdu.signal_refs, g.signals, g.codings),
                },
            )
        }
    }
}

/// The PDUs that a frame refers to; `None` where one of them is unknown.
pub open spec fn spec_resolve(refs: Seq<String>, pdus: Map<Seq<char>, PduMetadataView>) -> Option<
    Seq<PduMetadataView>,
>
    decreases refs.len(),
{
    if refs.len() == 0 {
        Some(Seq::<PduMetadataView>::empty())
    } else {
        match spec_resolve(refs.drop_last(), pdus) {
            None => None,
            Some(front) => if pdus.contains_key(refs.last()@) {
                Some(front.push(pdus[refs.last()@]))
            } else {
                None
            },
        }
    }
}

/// A row of `len` marks and the character that ends the row.
pub open spec fn spec_length_mark(len: nat) -> Seq<char> {
    Seq::new(len, |i: int| '+').push(':')
}

/// The text under which a frame is kept where the ids of context and
/// application are known. The three ids stand one after the other; in
/// front of them stand the lengths of the first two, each as a row of
/// marks, so that different ids never make the same text. The ids `CTX1`,
/// `DR` and `ID_64` make `++++:++:CTX1DRID_64`.
pub open spec fn spec_frame_key(context_id: Seq<char>, app_id: Seq<char>, frame_id: Seq<char>) -> Seq<
    char,
> {
    spec_length_mark(context_id.len()) + spec_length_mark(app_id.len()) + context_id + app_id
        + frame_id
}

/// Mathematical value of a [`FibexMetadata`]: the frames by their ids of
/// context, application and frame, see [`spec_frame_key`], and the frames
/// by their frame ids alone.
pub struct FibexMetadataView {
    pub frame_map_with_key: Map<Seq<char>, FrameMetadataView>,
    pub frame_map: Map<Seq<char>, FrameMetadataView>,
}

/// Mathematical value of a map of frames.
pub open spec fn spec_frame_views(map: Map<Seq<char>, FrameMetadata>) -> Map<
    Seq<char>,
    FrameMetadataView,
> {
    Map::new(|k: Seq<char>| map.contains_key(k), |k: Seq<char>| map[k]@)
}

/// Mathematical value of a map of PDUs.
pub open spec fn spec_pdu_map_views(map: Map<Seq<char>, PduMetadata>) -> Map<
    Seq<char>,
    PduMetadataView,
> {
    Map::new(|k: Seq<char>| map.contains_key(k), |k: Seq<char>| map[k]@)
}

/// The model represented by the FIBEX data.
pub struct FibexMetadata {
    pub frame_map_with_key: StringHashMap<FrameMetadata>,
    pub frame_map: StringHashMap<FrameMetadata>,
}

impl View for FibexMetadata {
    type V = FibexMetadataView;

    open spec fn view(&self) -> FibexMetadataView {
        FibexMetadataView {
            frame_map_with_key: spec_frame_views(self.frame_map_with_key@),
            frame_map: spec_frame_views(self.frame_map@),
        }
    }
}

/// The model made of the first `n` frames that were read. A frame that
/// refers to an unknown PDU is a structural error. Of frames with the same
/// key the first counts; a frame without id of context or application has
/// no key.
pub open spec fn spec_frames(g: GatheredView, n: int) -> Result<FibexMetadataView, ErrorKind>
    decreases n,
{
    if n <= 0 || n > g.frames.len() {
        Ok(FibexMetadataView { frame_map_with_key: Map::empty(), frame_map: Map::empty() })
    } else {
        match spec_frames(g, n - 1) {
            Err(k) => Err(k),
            Ok(model) => {
                let read = g.frames[n - 1];
                match spec_resolve(read.pdu_refs, spec_pdu_map(g, g.pdus.len() as int)) {
                    None => Err(ErrorKind::FibexStructure),
                    Some(pdus) => {
                        let frame = FrameMetadataView {
                            short_name: read.short_name@,
                            pdus,
                            application_id: spec_opt_text(read.application_id),
                            context_id: spec_opt_text(read.context_id),
                            message_type: spec_opt_text(read.message_type),
                            message_info: spec_opt_text(read.message_info),
                        };
                        Ok(
                            FibexMetadataView {
                                frame_map_with_key: match (read.context_id, read.application_id) {
                                    (Some(context_id), Some(application_id)) => {
                                        let key = spec_frame_key(
                                            context_id@,
                                            application_id@,
                                            read.id@,
                                        );
                                        if model.frame_map_with_key.contains_key(key) {
                                            model.frame_map_with_key
                                        } else {
                                            model.frame_map_with_key.insert(key, frame)
                                        }
                                    },
                                    _ => model.frame_map_with_key,
                                },
                                frame_map: if model.frame_map.contains_key(read.id@) {
                                    model.frame_map
                                } else {
                                    model.frame_map.insert(read.id@, frame)
                                },
                            },
                        )
                    },
                }
            },
        }
    }
}

/// The model that what was gathered describes.
pub open spec fn spec_model(g: GatheredView) -> Result<FibexMetadataView, ErrorKind> {
    spec_frames(g, g.frames.len() as int)
}

fn signal_types(
    refs: &Vec<String>,
    signals: &StringHashMap<String>,
    codings: &StringHashMap<String>,
) -> (r: Vec<TypeInfo>)
    ensures
        r@ == spec_signal_types(refs@, signals@, codings@),
{
    let mut types: Vec<TypeInfo> = Vec::new();
    let mut i: usize = 0;
    assert(refs@.subrange(0, 0) =~= Seq::<String>::empty());
    while i < refs.len()
        invariant
            i <= refs@.len(),
            types@ == spec_signal_types(refs@.subrange(0, i as int), signals@, codings@),
        decreases refs@.len() - i,
    {
        proof {
            assert(refs@.subrange(0, i + 1).drop_last() =~= refs@.subrange(0, i as int));
            assert(refs@.subrange(0, i + 1).last() == refs@[i as int]);
        }
        match type_info_for_signal_ref(refs[i].as_str(), signals, codings) {
            Some(info) => {
                types.push(info);
            },
            None => {},
        }
        i += 1;
    }
    assert(refs@.subrange(0, refs@.len() as int) =~= refs@);
    types
}

fn pdu_map(g: &Gathered) -> (map: StringHashMap<PduMetadata>)
    ensures
        spec_pdu_map_views(map@) == spec_pdu_map(g@, g@.pdus.len() as int),
{
    let mut map: StringHashMap<PduMetadata> = StringHashMap::new();
    let mut i: usize = 0;
    assert(spec_pdu_map_views(map@) =~= spec_pdu_map(g@, 0));
    while i < g.pdus.len()
        invariant
            i <= g.pdus@.len(),
            g@.pdus.len() == g.pdus@.len(),
            spec_pdu_map_views(map@) == spec_pdu_map(g@, i as int),
        decreases g.pdus@.len() - i,
    {
        let pdu = &g.pdus[i];
        assert(g@.pdus[i as int] == pdu@);
        let ghost before = map@;
        if !map.contains_key(pdu.id.as_str()) {
            let metadata = PduMetadata {
                description: clone_text(&pdu.description),
                signal_types: signal_types(&pdu.signal_refs, &g.signals, &g.codings),
            };
            map.insert(pdu.id.clone(), metadata);
            assert(spec_pdu_map_views(map@) =~= spec_pdu_map_views(before).insert(
                pdu.id@,
                metadata@,
            ));
        }
        i += 1;
    }
    map
}

fn resolve(refs: &Vec<String>, pdus: &StringHashMap<PduMetadata>) -> (r: Option<Vec<PduMetadata>>)
    ensures
        match r {
            Some(list) => spec_resolve(refs@, spec_pdu_map_views(pdus@)) == Some(
                spec_pdu_views(list@),
            ),
            None => spec_resolve(refs@, spec_pdu_map_views(pdus@)) is None,
        },
{
    let mut list: Vec<PduMetadata> = Vec::new();
    let mut i: usize = 0;
    assert(refs@.subrange(0, 0) =~= Seq::<String>::empty());
    assert(spec_pdu_views(list@) =~= Seq::<PduMetadataView>::empty());
    while i < refs.len()
        invariant
            i <= refs@.len(),
            spec_resolve(refs@.subrange(0, i as int), spec_pdu_map_views(pdus@)) == Some(
                spec_pdu_views(list@),
            ),
        decreases refs@.len() - i,
    {
        proof {
            assert(refs@.subrange(0, i + 1).drop_last() =~= refs@.subrange(0, i as int));
            assert(refs@.subrange(0, i + 1).last() == refs@[i as int]);
        }
        let ghost before = list@;
        match pdus.get(refs[i].as_str()) {
            Some(pdu) => {
                let copy = pdu.duplicate();
                list.push(copy);
                assert(spec_pdu_views(list@) =~= spec_pdu_views(before).push(copy@));
            },
            None => {
                proof {
                    lemma_resolve_fails(refs@, i + 1, spec_pdu_map_views(pdus@));
                }
                return None;
            },
        }
        i += 1;
    }
    assert(refs@.subrange(0, refs@.len() as int) =~= refs@);
    Some(list)
}

/// Where a part of the references cannot be resolved, all of them cannot.
pub proof fn lemma_resolve_fails(refs: Seq<String>, n: int, pdus: Map<Seq<char>, PduMetadataView>)
    requires
        0 <= n <= refs.len(),
        spec_resolve(refs.subrange(0, n), pdus) is None,
    ensures
        spec_resolve(refs, pdus) is None,
    decreases refs.len() - n,
{
    if n < refs.len() {
        assert(refs.subrange(0, n + 1).drop_last() =~= refs.subrange(0, n));
        lemma_resolve_fails(refs, n + 1, pdus);
    } else {
        assert(refs.subrange(0, n) =~= refs);
    }
}

/// Frames of different ids have different keys.
pub proof fn lemma_frame_key_injective(
    context_1: Seq<char>,
    app_1: Seq<char>,
    frame_1: Seq<char>,
    context_2: Seq<char>,
    app_2: Seq<char>,
    frame_2: Seq<char>,
)
    requires
        spec_frame_key(context_1, app_1, frame_1) == spec_frame_key(context_2, app_2, frame_2),
    ensures
        context_1 == context_2,
        app_1 == app_2,
        frame_1 == frame_2,
{
    let key_1 = spec_frame_key(context_1, app_1, frame_1);
    let key_2 = spec_frame_key(context_2, app_2, frame_2);
    let c1 = context_1.len() as int;
    let c2 = context_2.len() as int;
    let a1 = app_1.len() as int;
    let a2 = app_2.len() as int;
    // the first row of marks ends where the first one that is no mark stands
    assert(key_1[c1] == ':');
    assert(key_2[c2] == ':');
    if c1 < c2 {
        assert(key_2[c1] == '+');
    }
    if c2 < c1 {
        assert(key_1[c2] == '+');
    }
    // and so does the second
    assert(key_1[c1 + 1 + a1] == ':');
    assert(key_2[c1 + 1 + a2] == ':');
    if a1 < a2 {
        assert(key_2[c1 + 1 + a1] == '+');
    }
    if a2 < a1 {
        assert(key_1[c1 + 1 + a2] == '+');
    }
    // behind the rows stand the ids, whose lengths are known now
    let start = c1 + a1 + 2;
    assert(context_1 =~= context_2) by {
        assert forall|i: int| 0 <= i < c1 implies context_1[i] == context_2[i] by {
            assert(key_1[start + i] == context_1[i]);
            assert(key_2[start + i] == context_2[i]);
        }
    }
    assert(app_1 =~= app_2) by {
        assert forall|i: int| 0 <= i < a1 implies app_1[i] == app_2[i] by {
            assert(key_1[start + c1 + i] == app_1[i]);
            assert(key_2[start + c1 + i] == app_2[i]);
        }
    }
    assert(frame_1 =~= frame_2) by {
        assert(key_1.len() == start + c1 + a1 + frame_1.len());
        assert(key_2.len() == start + c1 + a1 + frame_2.len());
        assert forall|i: int| 0 <= i < frame_1.len() implies frame_1[i] == frame_2[i] by {
            assert(key_1[start + c1 + a1 + i] == frame_1[i]);
            assert(key_2[start + c1 + a1 + i] == frame_2[i]);
        }
    }
}

/// A row of as many marks as `text` has characters, see
/// [`spec_length_mark`].
fn length_mark(text: &str) -> (mark: String)
    ensures
        mark@ == spec_length_mark(text@.len()),
{
    let n: usize = text.unicode_len();
    let mut mark = String::new();
    let mut i: usize = 0;
    proof {
        reveal_strlit("+");
        reveal_strlit(":");
    }
    assert(mark@ =~= Seq::new(0, |j: int| '+'));
    while i < n
        invariant
            i <= n,
            "+"@ == seq!['+'],
            mark@ == Seq::new(i as nat, |j: int| '+'),
        decreases n - i,
    {
        mark.append("+");
        i += 1;
        assert(mark@ =~= Seq::new(i as nat, |j: int| '+'));
    }
    mark.append(":");
    assert(mark@ =~= spec_length_mark(n as nat));
    mark
}

/// The key of a frame, see [`spec_frame_key`].
pub fn frame_key(context_id: &str, app_id: &str, frame_id: &str) -> (key: String)
    ensures
        key@ == spec_frame_key(context_id@, app_id@, frame_id@),
{
    length_mark(context_id).concat(length_mark(app_id).as_str()).concat(context_id).concat(
        app_id,
    ).concat(frame_id)
}

impl FrameMetadataIdentification {
    /// The text under which the model keeps the frame.
    pub fn key(&self) -> (key: String)
        ensures
            key@ == spec_frame_key(self.context_id@, self.app_id@, self.frame_id@),
    {
        frame_key(self.context_id.as_str(), self.app_id.as_str(), self.frame_id.as_str())
    }
}

/// Build the model that what was gathered describes.
#[verifier::rlimit(40)]
pub fn build_model(g: &Gathered) -> (r: Result<FibexMetadata, Error>)
    ensures
        match r {
            Ok(model) => spec_model(g@) == Ok::<_, ErrorKind>(model@),
            Err(e) => spec_model(g@) == Err::<FibexMetadataView, _>(e.kind()),
        },
{
    let pdus = pdu_map(g);
    let mut model = FibexMetadata {
        frame_map_with_key: StringHashMap::new(),
        frame_map: StringHashMap::new(),
    };
    let mut i: usize = 0;
    assert(model@.frame_map =~= Map::<Seq<char>, FrameMetadataView>::empty());
    assert(model@.frame_map_with_key =~= Map::<Seq<char>, FrameMetadataView>::empty());
    while i < g.frames.len()
        invariant
            i <= g.frames@.len(),
            g@.frames.len() == g.frames@.len(),
            spec_pdu_map_views(pdus@) == spec_pdu_map(g@, g@.pdus.len() as int),
            spec_frames(g@, i as int) == Ok::<_, ErrorKind>(model@),
        decreases g.frames@.len() - i,
    {
        let read = &g.frames[i];
        assert(g@.frames[i as int] == read@);
        let ghost before = model@;
        let ghost keyed = model.frame_map_with_key@;
        let ghost by_id = model.frame_map@;
        let list = match resolve(&read.pdu_refs, &pdus) {
            Some(list) => list,
            None => {
                proof {
                    lemma_frames_fail(g@, i + 1);
                }
                return Err(Error::FibexStructure("pdu not found".to_owned()));
            },
        };
        let frame = FrameMetadata {
            short_name: read.short_name.clone(),
            pdus: list,
            application_id: clone_text(&read.application_id),
            context_id: clone_text(&read.context_id),
            message_type: clone_text(&read.message_type),
            message_info: clone_text(&read.message_info),
        };
        match (&read.context_id, &read.application_id) {
            (Some(context_id), Some(application_id)) => {
                let key = frame_key(
                    context_id.as_str(),
                    application_id.as_str(),
                    read.id.as_str(),
                );
                if !model.frame_map_with_key.contains_key(key.as_str()) {
                    let copy = frame.duplicate();
                    model.frame_map_with_key.insert(key, copy);
                    assert(spec_frame_views(model.frame_map_with_key@) =~= spec_frame_views(
                        keyed,
                    ).insert(key@, frame@));
                }
            },
            _ => {},
        }
        if !model.frame_map.contains_key(read.id.as_str()) {
            model.frame_map.insert(read.id.clone(), frame);
            assert(spec_frame_views(model.frame_map@) =~= spec_frame_views(by_id).insert(
                read.id@,
                frame@,
            ));
        }
        i += 1;
    }
    Ok(model)
}

/// Where the first frames cannot be made into a model, all of them cannot.
pub proof fn lemma_frames_fail(g: GatheredView, n: int)
    requires
        0 <= n <= g.frames.len(),
        spec_frames(g, n) is Err,
    ensures
        spec_frames(g, g.frames.len() as int) == spec_frames(g, n),
    decreases g.frames.len() - n,
{
    if n < g.frames.len() {
        lemma_frames_fail(g, n + 1);
    }
}

/// What the given documents describe together, where the tokens of the
/// documents are `tokens`. A list of tokens that does not end as a document
/// ends is no document: it is an error of the XML.
pub open spec fn spec_read_documents(g: GatheredView, tokens: Seq<Seq<XmlItem>>) -> Result<
    GatheredView,
    ErrorKind,
>
    decreases tokens.len(),
{
    if tokens.len() == 0 {
        Ok(g)
    } else {
        match spec_read_documents(g, tokens.drop_last()) {
            Err(k) => Err(k),
            Ok(before) => if spec_complete(tokens.last()) {
                spec_gather(before, ReaderState::spec_new(), tokens.last(), 0)
            } else {
                Err(ErrorKind::Xml)
            },
        }
    }
}

/// The model that documents with the tokens `tokens` describe, or the
/// first error on the way to it.
pub open spec fn spec_loaded(tokens: Seq<Seq<XmlItem>>) -> Result<FibexMetadataView, ErrorKind> {
    let empty = GatheredView {
        pdus: Seq::empty(),
        frames: Seq::empty(),
        signals: Map::empty(),
        codings: Map::empty(),
    };
    match spec_read_documents(empty, tokens) {
        Err(k) => Err(k),
        Ok(g) => spec_model(g),
    }
}

/// The index of the document at which reading ends: the first document
/// that cannot be read, or the last one.
pub open spec fn spec_last_read(g: GatheredView, tokens: Seq<Seq<XmlItem>>) -> int
    decreases tokens.len(),
{
    if tokens.len() == 0 {
        0
    } else if spec_read_documents(g, tokens.drop_last()) is Err {
        spec_last_read(g, tokens.drop_last())
    } else {
        tokens.len() - 1
    }
}

/// The bytes of the document at which reading ends, see [`spec_last_read`];
/// nothing where its bytes are not among `documents`.
pub open spec fn spec_last_document(tokens: Seq<Seq<XmlItem>>, documents: Seq<Vec<u8>>) -> Seq<u8> {
    let last = spec_last_read(
        GatheredView {
            pdus: Seq::empty(),
            frames: Seq::empty(),
            signals: Map::empty(),
            codings: Map::empty(),
        },
        tokens,
    );
    if 0 <= last < documents.len() {
        documents[last]@
    } else {
        Seq::empty()
    }
}

/// Whether `r` is the model that documents with the tokens `tokens` and the
/// bytes `documents` describe, or the error that ends the reading, see
/// [`Error::spec_tells`].
pub open spec fn spec_is_model_of(
    r: Result<FibexMetadata, Error>,
    tokens: Seq<Seq<XmlItem>>,
    documents: Seq<Vec<u8>>,
) -> bool {
    match r {
        Ok(model) => spec_loaded(tokens) == Ok::<_, ErrorKind>(model@),
        Err(e) => spec_loaded(tokens) is Err && e.spec_tells(
            spec_loaded(tokens)->Err_0,
            spec_last_document(tokens, documents),
        ),
    }
}

/// Where the first documents cannot be read, all of them cannot; the error
/// is the same, and so is the document at which reading ends.
pub proof fn lemma_read_documents_fail(g: GatheredView, tokens: Seq<Seq<XmlItem>>, n: int)
    requires
        0 <= n <= tokens.len(),
        spec_read_documents(g, tokens.subrange(0, n)) is Err,
    ensures
        spec_read_documents(g, tokens) == spec_read_documents(g, tokens.subrange(0, n)),
        spec_last_read(g, tokens) == spec_last_read(g, tokens.subrange(0, n)),
    decreases tokens.len() - n,
{
    if n < tokens.len() {
        assert(tokens.subrange(0, n + 1).drop_last() =~= tokens.subrange(0, n));
        lemma_read_documents_fail(g, tokens, n + 1);
    } else {
        assert(tokens.subrange(0, n) =~= tokens);
    }
}

/// The lists of tokens as sequences.
pub open spec fn spec_token_lists(lists: Seq<Vec<XmlItem>>) -> Seq<Seq<XmlItem>> {
    Seq::new(lists.len(), |i: int| lists[i]@)
}

/// The bytes of the document at index `i`, for the places that errors
/// tell; nothing where there is no such document.
fn document_at(documents: &Vec<Vec<u8>>, i: usize) -> (bytes: &[u8])
    ensures
        bytes@ == (if i < documents@.len() {
            documents@[i as int]@
        } else {
            Seq::<u8>::empty()
        }),
{
    if i < documents.len() {
        documents[i].as_slice()
    } else {
        let none: &[u8] = &[];
        assert(none@ =~= Seq::<u8>::empty());
        none
    }
}

/// What documents with the given tokens describe together, or the first
/// error on the way.
pub open spec fn spec_gathered(tokens: Seq<Seq<XmlItem>>) -> Result<GatheredView, ErrorKind> {
    spec_read_documents(
        GatheredView {
            pdus: Seq::empty(),
            frames: Seq::empty(),
            signals: Map::empty(),
            codings: Map::empty(),
        },
        tokens,
    )
}

/// Gather what documents with the given tokens describe together, in the
/// order of the documents. The first error ends the reading. `documents`
/// holds the bytes of the documents, by which an error tells its place.
#[verifier::rlimit(40)]
pub fn gather_tokens(tokens: &Vec<Vec<XmlItem>>, documents: &Vec<Vec<u8>>) -> (r: Result<
    Gathered,
    Error,
>)
    ensures
        match r {
            Ok(g) => spec_gathered(spec_token_lists(tokens@)) == Ok::<_, ErrorKind>(g@),
            Err(e) => spec_gathered(spec_token_lists(tokens@)) is Err && e.spec_tells(
                spec_gathered(spec_token_lists(tokens@))->Err_0,
                spec_last_document(spec_token_lists(tokens@), documents@),
            ),
        },
{
    let mut gathered = Gathered::new();
    let ghost empty = gathered@;
    let ghost all = spec_token_lists(tokens@);
    let mut i: usize = 0;
    assert(empty =~= GatheredView {
        pdus: Seq::empty(),
        frames: Seq::empty(),
        signals: Map::empty(),
        codings: Map::empty(),
    }) by {
        assert(empty.pdus =~= Seq::<PduReadView>::empty());
        assert(empty.frames =~= Seq::<FrameReadView>::empty());
    }
    while i < tokens.len()
        invariant
            i <= tokens@.len(),
            all == spec_token_lists(tokens@),
            spec_read_documents(empty, all.subrange(0, i as int)) == Ok::<_, ErrorKind>(
                gathered@,
            ),
            empty == (GatheredView {
                pdus: Seq::empty(),
                frames: Seq::empty(),
                signals: Map::empty(),
                codings: Map::empty(),
            }),
        decreases tokens@.len() - i,
    {
        let items = &tokens[i];
        proof {
            assert(all.subrange(0, i + 1).drop_last() =~= all.subrange(0, i as int));
            assert(all.subrange(0, i + 1).last() == items@);
        }
        if !crate::xml::is_complete(items) {
            proof {
                lemma_read_documents_fail(empty, all, i + 1);
            }
            return Err(Error::Xml("the document has no end".to_owned()));
        }
        match gathered.gather(items, document_at(documents, i)) {
            Ok(()) => {},
            Err(e) => {
                proof {
                    lemma_read_documents_fail(empty, all, i + 1);
                }
                return Err(e);
            },
        }
        i += 1;
    }
    assert(all.subrange(0, i as int) =~= all);
    Ok(gathered)
}

/// The model that documents with the given tokens describe together.
///
/// What the tokens of each document describe is gathered in the order of
/// the documents, see [`gather_tokens`]; the model is built when all of
/// them were read, see [`build_model`]. The first error ends the reading:
/// there is no model of a part of the documents.
pub fn model_of_tokens(tokens: &Vec<Vec<XmlItem>>, documents: &Vec<Vec<u8>>) -> (r: Result<
    FibexMetadata,
    Error,
>)
    ensures
        spec_is_model_of(r, spec_token_lists(tokens@), documents@),
{
    match gather_tokens(tokens, documents) {
        Ok(gathered) => build_model(&gathered),
        Err(e) => Err(e),
    }
}

/// Whether `r` is the model of the documents, whatever their tokens are:
/// there is a complete list of tokens for each document, and `r` is the
/// model of these, see [`spec_is_model_of`].
pub open spec fn spec_describes(r: Result<FibexMetadata, Error>, documents: Seq<Vec<u8>>) -> bool {
    exists|tokens: Seq<Seq<XmlItem>>|
        tokens.len() == documents.len() && (forall|i: int|
            0 <= i < tokens.len() ==> spec_complete(#[trigger] tokens[i])) && spec_is_model_of(
            r,
            tokens,
            documents,
        )
}

/// Read FIBEX documents into one model.
///
/// Each document is cut into tokens by the XML reader, and the model is
/// that of the tokens of all documents, see [`model_of_tokens`].
pub fn read_fibexes(documents: &Vec<Vec<u8>>) -> (r: Result<FibexMetadata, Error>)
    ensures
        spec_describes(r, documents@),
{
    let mut lists: Vec<Vec<XmlItem>> = Vec::new();
    let mut i: usize = 0;
    while i < documents.len()
        invariant
            i <= documents@.len(),
            lists@.len() == i,
            forall|k: int| 0 <= k < i ==> spec_complete((#[trigger] lists@[k])@),
        decreases documents@.len() - i,
    {
        lists.push(crate::xml::xml_tokens(documents[i].as_slice()));
        i += 1;
    }
    let r = model_of_tokens(&lists, documents);
    proof {
        let tokens = spec_token_lists(lists@);
        assert forall|k: int| 0 <= k < tokens.len() implies spec_complete(
            #[trigger] tokens[k],
        ) by {
            assert(tokens[k] == lists@[k]@);
        }
        assert(tokens.len() == documents@.len() && spec_is_model_of(r, tokens, documents@));
    }
    r
}

/// Whether `r` is what is made of `n` documents, whatever their tokens are:
/// nothing of no document; else there are `n` complete lists of tokens that
/// describe no model where `r` is nothing, and whose model `r` is where it
/// is one.
pub open spec fn spec_describes_all(r: Option<FibexMetadata>, n: nat) -> bool {
    if n == 0 {
        r is None
    } else {
        exists|tokens: Seq<Seq<XmlItem>>|
            tokens.len() == n && (forall|i: int|
                0 <= i < tokens.len() ==> spec_complete(#[trigger] tokens[i])) && (match r {
                Some(model) => spec_loaded(tokens) == Ok::<_, ErrorKind>(model@),
                None => spec_loaded(tokens) is Err,
            })
    }
}

/// Collects all the data found in the FIBEX documents and combines it into
/// a complete model. There is no model of no document, and none where the
/// documents cannot be read: a model is that of all the documents.
pub fn gather_fibex_data(documents: &Vec<Vec<u8>>) -> (r: Option<FibexMetadata>)
    ensures
        spec_describes_all(r, documents@.len()),
{
    if documents.len() == 0 {
        None
    } else {
        let read = read_fibexes(documents);
        let ghost tokens = choose|tokens: Seq<Seq<XmlItem>>|
            tokens.len() == documents@.len() && (forall|i: int|
                0 <= i < tokens.len() ==> spec_complete(#[trigger] tokens[i])) && spec_is_model_of(
                read,
                tokens,
                documents@,
            );
        match read {
            Ok(model) => {
                assert(spec_loaded(tokens) == Ok::<_, ErrorKind>(model@));
                Some(model)
            },
            Err(_) => {
                assert(spec_loaded(tokens) is Err);
                None
            },
        }
    }
}

/// The text that stands for a frame id in a FIBEX document: `ID_` and the
/// number in decimal notation.
pub open spec fn spec_frame_id_text(id: u32) -> Seq<char> {
    "ID_"@ + crate::fibex_reader::spec_decimal_text(id as nat)
}

/// Look up `FrameMetadata` in the FIBEX model using the information from
/// the extended header. If no extended header is present, try with just the
/// frame id.
pub fn extract_metadata<'a>(
    fibex_metadata: &'a FibexMetadata,
    id: u32,
    extended_header: Option<&ExtendedHeader>,
) -> (r: Option<&'a FrameMetadata>)
    ensures
        match extended_header {
            Some(h) => {
                let key = spec_frame_key(h.context_id@, h.application_id@, spec_frame_id_text(id));
                match r {
                    Some(frame) => fibex_metadata@.frame_map_with_key.contains_key(key)
                        && fibex_metadata@.frame_map_with_key[key] == frame@,
                    None => !fibex_metadata@.frame_map_with_key.contains_key(key),
                }
            },
            None => match r {
                Some(frame) => fibex_metadata@.frame_map.contains_key(spec_frame_id_text(id))
                    && fibex_metadata@.frame_map[spec_frame_id_text(id)] == frame@,
                None => !fibex_metadata@.frame_map.contains_key(spec_frame_id_text(id)),
            },
        },
{
    let id_text = "ID_".to_owned().concat(
        crate::fibex_reader::decimal_text(id as usize).as_str(),
    );
    match extended_header {
        Some(h) => {
            let key = frame_key(h.context_id.as_str(), h.application_id.as_str(), id_text.as_str());
            fibex_metadata.frame_map_with_key.get(key.as_str())
        },
        None => fibex_metadata.frame_map.get(id_text.as_str()),
    }
}

/// Read the rest of a PDU whose start was read.
pub fn read_pdu(id: String, s: ReaderState, items: &Vec<XmlItem>, i: usize, document: &[u8]) -> (r:
    Result<(PduRead, ReaderState, usize), Error>)
    requires
        i < items@.len(),
        spec_complete(items@),
    ensures
        match r {
            Ok((pdu, state, next)) => spec_read_pdu(
                id,
                s,
                items@,
                i as int,
                Seq::<(usize, String)>::empty(),
            ) == Ok::<_, ErrorKind>((pdu@, state, next as int)) && i <= next < items@.len(),
            Err(e) => spec_read_pdu(id, s, items@, i as int, Seq::<(usize, String)>::empty())
                is Err && e.spec_tells(
                spec_read_pdu(id, s, items@, i as int, Seq::<(usize, String)>::empty())->Err_0,
                document@,
            ),
        },
{
    let mut refs: Vec<(usize, String)> = Vec::new();
    let mut state = s;
    let mut at: usize = i;
    assert(refs@ =~= Seq::<(usize, String)>::empty());
    loop
        invariant
            i <= at < items@.len(),
            spec_complete(items@),
            spec_read_pdu(id, s, items@, i as int, Seq::<(usize, String)>::empty())
                == spec_read_pdu(id, state, items@, at as int, refs@),
        decreases items@.len() - at,
    {
        let (event, after, next) = read_event(state, items, at, document)?;
        match event {
            FibexEvent::PduEnd { description, .. } => {
                let signal_refs = values_by_sequence_number(refs);
                return Ok((PduRead { id, description, signal_refs }, after, next));
            },
            FibexEvent::Eof => {
                return Err(Error::FibexStructure("the document ends inside a PDU".to_owned()));
            },
            FibexEvent::SignalInstance { sequence_number, signal_ref, .. } => {
                if next <= at {
                    return Err(Error::Xml("the document has no end".to_owned()));
                }
                refs.push((sequence_number, signal_ref));
            },
            _ => {
                if next <= at {
                    return Err(Error::Xml("the document has no end".to_owned()));
                }
            },
        }
        state = after;
        at = next;
    }
}

/// Read the rest of a frame whose start was read.
pub fn read_frame(id: String, s: ReaderState, items: &Vec<XmlItem>, i: usize, document: &[u8]) -> (r:
    Result<(FrameRead, ReaderState, usize), Error>)
    requires
        i < items@.len(),
        spec_complete(items@),
    ensures
        match r {
            Ok((frame, state, next)) => spec_read_frame(
                id,
                s,
                items@,
                i as int,
                Seq::<(usize, String)>::empty(),
                FrameInfo {
                    context_id: None,
                    application_id: None,
                    message_type: None,
                    message_info: None,
                },
            ) == Ok::<_, ErrorKind>((frame@, state, next as int)) && i <= next < items@.len(),
            Err(e) => spec_read_frame(
                id,
                s,
                items@,
                i as int,
                Seq::<(usize, String)>::empty(),
                FrameInfo {
                    context_id: None,
                    application_id: None,
                    message_type: None,
                    message_info: None,
                },
            ) is Err && e.spec_tells(
                spec_read_frame(
                    id,
                    s,
                    items@,
                    i as int,
                    Seq::<(usize, String)>::empty(),
                    FrameInfo {
                        context_id: None,
                        application_id: None,
                        message_type: None,
                        message_info: None,
                    },
                )->Err_0,
                document@,
            ),
        },
{
    let mut refs: Vec<(usize, String)> = Vec::new();
    let mut frame_context_id: Option<String> = None;
    let mut frame_application_id: Option<String> = None;
    let mut frame_message_type: Option<String> = None;
    let mut frame_message_info: Option<String> = None;
    let mut state = s;
    let mut at: usize = i;
    assert(refs@ =~= Seq::<(usize, String)>::empty());
    loop
        invariant
            i <= at < items@.len(),
            spec_complete(items@),
            spec_read_frame(
                id,
                s,
                items@,
                i as int,
                Seq::<(usize, String)>::empty(),
                FrameInfo {
                    context_id: None,
                    application_id: None,
                    message_type: None,
                    message_info: None,
                },
            ) == spec_read_frame(
                id,
                state,
                items@,
                at as int,
                refs@,
                FrameInfo {
                    context_id: frame_context_id,
                    application_id: frame_application_id,
                    message_type: frame_message_type,
                    message_info: frame_message_info,
                },
            ),
        decreases items@.len() - at,
    {
        let (event, after, next) = read_event(state, items, at, document)?;
        match event {
            FibexEvent::FrameEnd { short_name, .. } => {
                let pdu_refs = values_by_sequence_number(refs);
                return Ok(
                    (
                        FrameRead {
                            id,
                            short_name,
                            context_id: frame_context_id,
                            application_id: frame_application_id,
                            message_type: frame_message_type,
                            message_info: frame_message_info,
                            pdu_refs,
                        },
                        after,
                        next,
                    ),
                );
            },
            FibexEvent::Eof => {
                return Err(Error::FibexStructure("the document ends inside a frame".to_owned()));
            },
            FibexEvent::PduInstance { sequence_number, pdu_ref, .. } => {
                if next <= at {
                    return Err(Error::Xml("the document has no end".to_owned()));
                }
                refs.push((sequence_number, pdu_ref));
            },
            FibexEvent::ManufacturerExtension {
                context_id,
                application_id,
                message_type,
                message_info,
            } => {
                if next <= at {
                    return Err(Error::Xml("the document has no end".to_owned()));
                }
                frame_context_id = context_id;
                frame_application_id = application_id;
                frame_message_type = message_type;
                frame_message_info = message_info;
            },
            _ => {
                if next <= at {
                    return Err(Error::Xml("the document has no end".to_owned()));
                }
            },
        }
        state = after;
        at = next;
    }
}

} // verus!
