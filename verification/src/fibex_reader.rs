//! # Reading the elements of a FIBEX document
//!
//! A FIBEX document is read as a list of tokens. The reader walks along
//! the tokens, keeps what the small elements say in slots of its state, and
//! yields a [`FibexEvent`] at the start and the end of the elements that make
//! up the model: PDUs, frames, signals and codings.
use crate::xml::{
    is_tag, line_and_column, parse_usize, spec_complete, spec_parse_usize, XmlAttribute, XmlItem,
    XmlToken,
};
use vstd::prelude::*;
use vstd::string::{StringExecFns, StringSliceAdditionalSpecFns};
use vstd::utf8::encode_utf8;

verus! {

/// FIBEX related error types.
#[derive(Debug, PartialEq, Eq)]
pub enum Error {
    /// Some structural problem with the FIBEX document.
    FibexStructure(String),
    /// Problems parsing the FIBEX document.
    Parse(String),
    /// Reading the XML failed.
    Xml(String),
    /// Reading an attribute failed.
    Attribute(String),
    /// Reading a file failed.
    Io(String),
}

/// What an error says. Of most errors that is their kind, without their
/// text. The error for something that is missing in an element says more:
/// what is missing, of which kind it is, in which element, and behind which
/// byte of the document.
pub enum ErrorKind {
    FibexStructure,
    Parse,
    Xml,
    Attribute,
    Io,
    Missing(Seq<char>, Seq<char>, Seq<char>, nat),
}

/// The error for something that is missing in an element.
pub open spec fn spec_missing(what: &str, kind: &str, enclosing: &str, position: nat) -> ErrorKind {
    ErrorKind::Missing(what@, kind@, enclosing@, position)
}

impl Error {
    pub open spec fn kind(self) -> ErrorKind {
        match self {
            Error::FibexStructure(_) => ErrorKind::FibexStructure,
            Error::Parse(_) => ErrorKind::Parse,
            Error::Xml(_) => ErrorKind::Xml,
            Error::Attribute(_) => ErrorKind::Attribute,
            Error::Io(_) => ErrorKind::Io,
        }
    }

    /// The description of the error: what kind of error it is, and the
    /// text that it holds.
    pub open spec fn spec_message(self) -> Seq<char> {
        match self {
            Error::FibexStructure(text) => "Fibex structure wrong: "@ + text@,
            Error::Parse(text) => "Problems parsing: "@ + text@,
            Error::Xml(text) => "XML error: "@ + text@,
            Error::Attribute(text) => "Attribute error: "@ + text@,
            Error::Io(text) => "IO error: "@ + text@,
        }
    }

    /// Whether this is the error that `k` stands for, in a document with
    /// the bytes `document`: the error for something that is missing is a
    /// structural error that tells what is missing and where, see
    /// [`spec_missing_text`]; any other error is of the kind `k`.
    pub open spec fn spec_tells(self, k: ErrorKind, document: Seq<u8>) -> bool {
        match k {
            ErrorKind::Missing(what, kind, enclosing, position) => self is FibexStructure
                && self->FibexStructure_0@ == spec_missing_text(
                what,
                kind,
                enclosing,
                document,
                position,
            ),
            _ => self.kind() == k,
        }
    }

    /// A human readable description of the error.
    pub fn message(&self) -> (description: String)
        ensures
            description@ == self.spec_message(),
    {
        match self {
            Error::FibexStructure(text) => "Fibex structure wrong: ".to_owned().concat(
                text.as_str(),
            ),
            Error::Parse(text) => "Problems parsing: ".to_owned().concat(text.as_str()),
            Error::Xml(text) => "XML error: ".to_owned().concat(text.as_str()),
            Error::Attribute(text) => "Attribute error: ".to_owned().concat(text.as_str()),
            Error::Io(text) => "IO error: ".to_owned().concat(text.as_str()),
        }
    }
}

/// The text of `n` in decimal notation.
pub open spec fn spec_decimal_text(n: nat) -> Seq<char> {
    crate::text::spec_lossy_text(crate::xml::spec_decimal_digits(n))
}

/// The text of `n` in decimal notation.
pub fn decimal_text(n: usize) -> (text: String)
    ensures
        text@ == spec_decimal_text(n as nat),
{
    let mut digits: Vec<u8> = Vec::new();
    let mut rest: usize = n;
    assert(crate::xml::spec_decimal_digits(n as nat) =~= crate::xml::spec_decimal_digits(
        rest as nat,
    ) + digits@);
    while rest >= 10
        invariant
            crate::xml::spec_decimal_digits(n as nat) == crate::xml::spec_decimal_digits(
                rest as nat,
            ) + digits@,
        decreases rest,
    {
        let d: u8 = 0x30 + (rest % 10) as u8;
        let ghost before = digits@;
        digits.insert(0, d);
        assert(crate::xml::spec_decimal_digits((rest / 10) as nat).push(d) + before
            =~= crate::xml::spec_decimal_digits((rest / 10) as nat) + digits@);
        rest = rest / 10;
    }
    let ghost before = digits@;
    digits.insert(0, 0x30 + rest as u8);
    assert(digits@ =~= seq![(0x30 + rest) as u8] + before);
    crate::text::lossy_text(digits.as_slice())
}

/// Line and column of a byte position, as an error tells them. A document
/// that is too long for its lines to be counted has no such places.
pub open spec fn spec_place(document: Seq<u8>, position: nat) -> (nat, nat) {
    if document.len() < usize::MAX {
        crate::xml::spec_line_and_column(document, position)
    } else {
        (0, 0)
    }
}

/// What the error for something that is missing says: what is missing,
/// of which kind it is, in which element, and where in the document.
pub open spec fn spec_missing_text(
    what: Seq<char>,
    kind: Seq<char>,
    enclosing: Seq<char>,
    document: Seq<u8>,
    position: nat,
) -> Seq<char> {
    "required "@ + what + " "@ + kind + " is missing for "@ + enclosing + " at ("@
        + spec_decimal_text(spec_place(document, position).0) + ", "@ + spec_decimal_text(
        spec_place(document, position).1,
    ) + ")"@
}

/// The error for something that is missing in an element, with the place
/// in the document.
fn missing(what: &str, kind: &str, enclosing: &str, document: &[u8], position: usize) -> (e: Error)
    ensures
        e is FibexStructure,
        e->FibexStructure_0@ == spec_missing_text(
            what@,
            kind@,
            enclosing@,
            document@,
            position as nat,
        ),
{
    let (line, column): (usize, usize) = if document.len() < usize::MAX {
        line_and_column(document, position)
    } else {
        (0, 0)
    };
    let text = "required ".to_owned().concat(what).concat(" ").concat(kind).concat(
        " is missing for ",
    ).concat(enclosing).concat(" at (").concat(decimal_text(line).as_str()).concat(", ").concat(
        decimal_text(column).as_str(),
    ).concat(")");
    Error::FibexStructure(text)
}

/// Whether the attribute name `key` is `name`, bare or behind a namespace
/// prefix and a colon.
pub open spec fn spec_attribute_matches(key: Seq<u8>, name: Seq<u8>) -> bool {
    ||| key == name
    ||| (key.len() > name.len() && key[key.len() - name.len() - 1] == 0x3A && key.subrange(
        key.len() - name.len(),
        key.len() as int,
    ) == name)
}

/// Whether the attribute name `key` is `name`, bare or behind a namespace
/// prefix and a colon.
pub fn attribute_matches(key: &[u8], name: &[u8]) -> (r: bool)
    ensures
        r == spec_attribute_matches(key@, name@),
{
    if crate::xml::bytes_eq(key, name) {
        return true;
    }
    let name_len = name.len();
    let key_len = key.len();
    if key_len > name_len {
        key[key_len - name_len - 1] == 0x3A && crate::xml::bytes_eq(
            vstd::slice::slice_subrange(key, key_len - name_len, key_len),
            name,
        )
    } else {
        false
    }
}

/// The value of the first attribute from index `from` on that is called
/// `name`. An attribute that cannot be read in front of it, and a value
/// whose escape sequences cannot be replaced, are errors.
pub open spec fn spec_attr_opt(
    attributes: Seq<Result<XmlAttribute, String>>,
    name: Seq<u8>,
    from: int,
) -> Result<Option<String>, ErrorKind>
    decreases attributes.len() - from,
{
    if from < 0 || from >= attributes.len() {
        Ok(None)
    } else {
        match attributes[from] {
            Err(_) => Err(ErrorKind::Attribute),
            Ok(a) => if spec_attribute_matches(a.key@, name) {
                match a.value {
                    Ok(v) => Ok(Some(v)),
                    Err(_) => Err(ErrorKind::Xml),
                }
            } else {
                spec_attr_opt(attributes, name, from + 1)
            },
        }
    }
}

/// The value of the attribute `name`, if the tag has it.
pub fn attr_opt(attributes: &Vec<Result<XmlAttribute, String>>, name: &str) -> (r: Result<
    Option<String>,
    Error,
>)
    ensures
        match r {
            Ok(v) => spec_attr_opt(attributes@, name.spec_bytes(), 0) == Ok::<_, ErrorKind>(v),
            Err(e) => spec_attr_opt(attributes@, name.spec_bytes(), 0) == Err::<Option<String>, _>(
                e.kind(),
            ),
        },
{
    let mut i: usize = 0;
    while i < attributes.len()
        invariant
            i <= attributes@.len(),
            spec_attr_opt(attributes@, name.spec_bytes(), 0) == spec_attr_opt(
                attributes@,
                name.spec_bytes(),
                i as int,
            ),
        decreases attributes@.len() - i,
    {
        match &attributes[i] {
            Err(text) => {
                return Err(Error::Attribute(text.clone()));
            },
            Ok(a) => {
                if attribute_matches(a.key.as_slice(), name.as_bytes()) {
                    match &a.value {
                        Ok(v) => {
                            return Ok(Some(v.clone()));
                        },
                        Err(text) => {
                            return Err(Error::Xml(text.clone()));
                        },
                    }
                }
            },
        }
        i += 1;
    }
    Ok(None)
}

/// The value of an attribute that the tag of the element `enclosing` has
/// to have; the tag ends at the byte position `position`.
pub open spec fn spec_attr(
    attributes: Seq<Result<XmlAttribute, String>>,
    name: &str,
    enclosing: &str,
    position: nat,
) -> Result<String, ErrorKind> {
    match spec_attr_opt(attributes, name.spec_bytes(), 0) {
        Ok(Some(v)) => Ok(v),
        Ok(None) => Err(spec_missing(name, "attribute", enclosing, position)),
        Err(k) => Err(k),
    }
}

/// The value of an attribute that the tag has to have.
fn attr(
    attributes: &Vec<Result<XmlAttribute, String>>,
    name: &str,
    enclosing: &str,
    document: &[u8],
    position: usize,
) -> (r: Result<String, Error>)
    ensures
        match r {
            Ok(v) => spec_attr(attributes@, name, enclosing, position as nat) == Ok::<
                _,
                ErrorKind,
            >(v),
            Err(e) => spec_attr(attributes@, name, enclosing, position as nat) is Err
                && e.spec_tells(
                spec_attr(attributes@, name, enclosing, position as nat)->Err_0,
                document@,
            ),
        },
{
    match attr_opt(attributes, name)? {
        Some(v) => Ok(v),
        None => Err(missing(name, "attribute", enclosing, document, position)),
    }
}

/// What the reader yields.
#[allow(inconsistent_fields)]
#[derive(Debug, PartialEq, Eq)]
pub enum FibexEvent {
    PduStart { id: String },
    PduEnd { short_name: Option<String>, description: Option<String>, byte_length: usize },
    SignalInstance { id: String, sequence_number: usize, signal_ref: String },
    FrameStart { id: String },
    FrameEnd { short_name: String, byte_length: usize },
    ManufacturerExtension {
        message_type: Option<String>,
        message_info: Option<String>,
        application_id: Option<String>,
        context_id: Option<String>,
    },
    PduInstance { id: String, pdu_ref: String, sequence_number: usize },
    Signal { id: String, coding_ref: String },
    Coding { id: String, base_data_type: String },
    Eof,
}

/// The slots in which the reader keeps what the small elements said.
#[derive(Debug, PartialEq, Eq)]
pub struct ReaderState {
    pub short_name: Option<String>,
    pub description: Option<String>,
    pub byte_length: Option<usize>,
    pub kind: Option<String>,
    pub id: Option<String>,
    pub sequence_number: Option<usize>,
    pub reference: Option<String>,
    pub application_id: Option<String>,
    pub context_id: Option<String>,
    pub message_type: Option<String>,
    pub message_info: Option<String>,
    pub base_data_type: Option<String>,
}

impl ReaderState {
    /// The state with nothing in its slots.
    pub open spec fn spec_new() -> ReaderState {
        ReaderState {
            short_name: None,
            description: None,
            byte_length: None,
            kind: None,
            id: None,
            sequence_number: None,
            reference: None,
            application_id: None,
            context_id: None,
            message_type: None,
            message_info: None,
            base_data_type: None,
        }
    }

    pub fn new() -> (state: ReaderState)
        ensures
            state == ReaderState::spec_new(),
    {
        ReaderState {
            short_name: None,
            description: None,
            byte_length: None,
            kind: None,
            id: None,
            sequence_number: None,
            reference: None,
            application_id: None,
            context_id: None,
            message_type: None,
            message_info: None,
            base_data_type: None,
        }
    }
}

/// The index of the token behind the one at `i`. The reader never leaves
/// the last token, which is the end of the document or its failure.
pub open spec fn spec_advance(items: Seq<XmlItem>, i: int) -> int {
    if i + 1 < items.len() {
        i + 1
    } else {
        i
    }
}

/// The text that the token at `i` holds. A token that is no text is a
/// parse error, text that cannot be read an XML error.
pub open spec fn spec_read_text(items: Seq<XmlItem>, i: int) -> Result<String, ErrorKind> {
    if 0 <= i < items.len() {
        match items[i].token {
            XmlToken::Text(Ok(text)) => Ok(text),
            XmlToken::Text(Err(_)) => Err(ErrorKind::Xml),
            XmlToken::Failure(_) => Err(ErrorKind::Xml),
            _ => Err(ErrorKind::Parse),
        }
    } else {
        Err(ErrorKind::Parse)
    }
}

/// The number that the token at `i` holds.
pub open spec fn spec_read_usize(items: Seq<XmlItem>, i: int) -> Result<usize, ErrorKind> {
    match spec_read_text(items, i) {
        Err(k) => Err(k),
        Ok(text) => match spec_parse_usize(encode_utf8(text@)) {
            Some(n) => Ok(n),
            None => Err(ErrorKind::Parse),
        },
    }
}

fn read_text(items: &Vec<XmlItem>, i: usize) -> (r: Result<String, Error>)
    requires
        i < items@.len(),
    ensures
        match r {
            Ok(text) => spec_read_text(items@, i as int) == Ok::<_, ErrorKind>(text),
            Err(e) => spec_read_text(items@, i as int) == Err::<String, _>(e.kind()),
        },
{
    match &items[i].token {
        XmlToken::Text(Ok(text)) => Ok(text.clone()),
        XmlToken::Text(Err(text)) => Err(Error::Xml(text.clone())),
        XmlToken::Failure(text) => Err(Error::Xml(text.clone())),
        _ => Err(Error::Parse("read_text: unexpected event".to_owned())),
    }
}

fn read_usize(items: &Vec<XmlItem>, i: usize) -> (r: Result<usize, Error>)
    requires
        i < items@.len(),
    ensures
        match r {
            Ok(n) => spec_read_usize(items@, i as int) == Ok::<_, ErrorKind>(n),
            Err(e) => spec_read_usize(items@, i as int) == Err::<usize, _>(e.kind()),
        },
{
    let text = read_text(items, i)?;
    match parse_usize(text.as_str()) {
        Some(n) => Ok(n),
        None => Err(Error::Parse("can't parse usize".to_owned())),
    }
}

fn advance(items: &Vec<XmlItem>, i: usize) -> (j: usize)
    requires
        i < items@.len(),
    ensures
        j as int == spec_advance(items@, i as int),
        j < items@.len(),
{
    if i < items.len() - 1 {
        i + 1
    } else {
        i
    }
}

/// What one token does to the reader.
pub enum Step {
    /// The reader goes on with the token at the index, in the given state.
    Go(ReaderState, int),
    /// The reader yields an event.
    Emit(FibexEvent, ReaderState, int),
    /// The reader fails.
    Fail(ErrorKind),
}

/// The outcome of a step that stores the text of an element in a slot.
pub open spec fn spec_store_text(
    items: Seq<XmlItem>,
    i: int,
    store: spec_fn(String) -> ReaderState,
) -> Step {
    let next = spec_advance(items, i);
    match spec_read_text(items, next) {
        Ok(text) => Step::Go(store(text), spec_advance(items, next)),
        Err(k) => Step::Fail(k),
    }
}

/// The outcome of a step that stores the number of an element in a slot.
pub open spec fn spec_store_usize(
    items: Seq<XmlItem>,
    i: int,
    store: spec_fn(usize) -> ReaderState,
) -> Step {
    let next = spec_advance(items, i);
    match spec_read_usize(items, next) {
        Ok(n) => Step::Go(store(n), spec_advance(items, next)),
        Err(k) => Step::Fail(k),
    }
}

/// The outcome of a step that stores an attribute in a slot.
pub open spec fn spec_store_attr(
    items: Seq<XmlItem>,
    i: int,
    attributes: Seq<Result<XmlAttribute, String>>,
    name: &str,
    enclosing: &str,
    store: spec_fn(String) -> ReaderState,
) -> Step {
    match spec_attr(attributes, name, enclosing, items[i].position as nat) {
        Ok(v) => Step::Go(store(v), spec_advance(items, i)),
        Err(k) => Step::Fail(k),
    }
}

/// An attribute that may be missing or unreadable.
pub open spec fn spec_attr_ok(attributes: Seq<Result<XmlAttribute, String>>, name: &str) -> Option<
    String,
> {
    match spec_attr(attributes, name, "", 0) {
        Ok(v) => Some(v),
        Err(_) => None,
    }
}

/// What an opening tag at index `i` does to the reader.
pub open spec fn spec_on_start(
    s: ReaderState,
    name: Seq<u8>,
    attributes: Seq<Result<XmlAttribute, String>>,
    items: Seq<XmlItem>,
    i: int,
) -> Step {
    if name == "PDU".spec_bytes() {
        match spec_attr(attributes, "ID", "PDU", items[i].position as nat) {
            Ok(id) => Step::Emit(
                FibexEvent::PduStart { id },
                ReaderState { short_name: None, byte_length: None, kind: None, description: None, ..s },
                spec_advance(items, i),
            ),
            Err(k) => Step::Fail(k),
        }
    } else if name == "SHORT-NAME".spec_bytes() {
        spec_store_text(items, i, |t: String| ReaderState { short_name: Some(t), ..s })
    } else if name == "BYTE-LENGTH".spec_bytes() {
        spec_store_usize(items, i, |n: usize| ReaderState { byte_length: Some(n), ..s })
    } else if name == "SIGNAL-INSTANCE".spec_bytes() {
        spec_store_attr(
            items,
            i,
            attributes,
            "ID",
            "SIGNAL-INSTANCE",
            |v: String| ReaderState { id: Some(v), reference: None, sequence_number: None, ..s },
        )
    } else if name == "PDU-INSTANCE".spec_bytes() {
        spec_store_attr(
            items,
            i,
            attributes,
            "ID",
            "PDU-INSTANCE",
            |v: String| ReaderState { id: Some(v), reference: None, sequence_number: None, ..s },
        )
    } else if name == "SEQUENCE-NUMBER".spec_bytes() {
        spec_store_usize(items, i, |n: usize| ReaderState { sequence_number: Some(n), ..s })
    } else if name == "SIGNAL-REF".spec_bytes() {
        spec_store_attr(
            items,
            i,
            attributes,
            "ID-REF",
            "SIGNAL-REF",
            |v: String| ReaderState { reference: Some(v), ..s },
        )
    } else if name == "PDU-REF".spec_bytes() {
        spec_store_attr(
            items,
            i,
            attributes,
            "ID-REF",
            "PDU-REF",
            |v: String| ReaderState { reference: Some(v), ..s },
        )
    } else if name == "PDU-TYPE".spec_bytes() || name == "FRAME-TYPE".spec_bytes() {
        spec_store_text(items, i, |t: String| ReaderState { kind: Some(t), ..s })
    } else if name == "FRAME".spec_bytes() {
        match spec_attr(attributes, "ID", "PDU", items[i].position as nat) {
            Ok(id) => Step::Emit(
                FibexEvent::FrameStart { id },
                ReaderState { short_name: None, byte_length: None, kind: None, ..s },
                spec_advance(items, i),
            ),
            Err(k) => Step::Fail(k),
        }
    } else if name == "MANUFACTURER-EXTENSION".spec_bytes() {
        Step::Go(
            ReaderState {
                application_id: None,
                context_id: None,
                message_info: None,
                message_type: None,
                ..s
            },
            spec_advance(items, i),
        )
    } else if name == "APPLICATION_ID".spec_bytes() {
        spec_store_text(items, i, |t: String| ReaderState { application_id: Some(t), ..s })
    } else if name == "CONTEXT_ID".spec_bytes() {
        spec_store_text(items, i, |t: String| ReaderState { context_id: Some(t), ..s })
    } else if name == "MESSAGE_INFO".spec_bytes() {
        spec_store_text(items, i, |t: String| ReaderState { message_info: Some(t), ..s })
    } else if name == "MESSAGE_TYPE".spec_bytes() {
        spec_store_text(items, i, |t: String| ReaderState { message_type: Some(t), ..s })
    } else if name == "DESC".spec_bytes() {
        let next = spec_advance(items, i);
        Step::Go(
            ReaderState {
                description: match spec_read_text(items, next) {
                    Ok(t) => Some(t),
                    Err(_) => None,
                },
                ..s
            },
            spec_advance(items, next),
        )
    } else if name == "CODING".spec_bytes() {
        spec_store_attr(
            items,
            i,
            attributes,
            "ID",
            "CODING",
            |v: String| ReaderState { id: Some(v), base_data_type: None, ..s },
        )
    } else if name == "SIGNAL".spec_bytes() {
        spec_store_attr(
            items,
            i,
            attributes,
            "ID",
            "SIGNAL",
            |v: String| ReaderState { id: Some(v), reference: None, ..s },
        )
    } else if name == "CODED-TYPE".spec_bytes() {
        Step::Go(
            ReaderState { base_data_type: spec_attr_ok(attributes, "BASE-DATA-TYPE"), ..s },
            spec_advance(items, i),
        )
    } else {
        Step::Go(s, spec_advance(items, i))
    }
}

/// What the tag of an element without content at index `i` does to the
/// reader.
pub open spec fn spec_on_empty(
    s: ReaderState,
    name: Seq<u8>,
    attributes: Seq<Result<XmlAttribute, String>>,
    items: Seq<XmlItem>,
    i: int,
) -> Step {
    if name == "SIGNAL-REF".spec_bytes() || name == "CODING-REF".spec_bytes() {
        spec_store_attr(
            items,
            i,
            attributes,
            "ID-REF",
            "SIGNAL-REF",
            |v: String| ReaderState { reference: Some(v), ..s },
        )
    } else if name == "PDU-REF".spec_bytes() {
        spec_store_attr(
            items,
            i,
            attributes,
            "ID-REF",
            "PDU-REF",
            |v: String| ReaderState { reference: Some(v), ..s },
        )
    } else if name == "CODED-TYPE".spec_bytes() {
        Step::Go(
            ReaderState { base_data_type: spec_attr_ok(attributes, "BASE-DATA-TYPE"), ..s },
            spec_advance(items, i),
        )
    } else {
        Step::Go(s, spec_advance(items, i))
    }
}

/// What a closing tag at index `i` does to the reader: the end of a PDU,
/// a frame, an instance, an extension, a signal or a coding yields an
/// event that takes what it needs out of the slots. A slot that has to be
/// filled and is empty is an error that tells what is missing; the slots
/// are looked at in the order in which the elements fill them.
pub open spec fn spec_on_end(s: ReaderState, name: Seq<u8>, items: Seq<XmlItem>, i: int) -> Step {
    let next = spec_advance(items, i);
    let position = items[i].position as nat;
    if name == "PDU".spec_bytes() {
        match s.byte_length {
            Some(byte_length) => Step::Emit(
                FibexEvent::PduEnd { short_name: s.short_name, description: s.description, byte_length },
                ReaderState { short_name: None, description: None, byte_length: None, ..s },
                next,
            ),
            None => Step::Fail(spec_missing("BYTE-LENGTH", "tag", "PDU", position)),
        }
    } else if name == "SIGNAL-INSTANCE".spec_bytes() {
        match (s.id, s.sequence_number, s.reference) {
            (Some(id), Some(sequence_number), Some(signal_ref)) => Step::Emit(
                FibexEvent::SignalInstance { id, sequence_number, signal_ref },
                ReaderState { id: None, sequence_number: None, reference: None, ..s },
                next,
            ),
            (None, _, _) => Step::Fail(
                spec_missing("ID", "attribute", "SIGNAL-INSTANCE", position),
            ),
            (_, None, _) => Step::Fail(
                spec_missing("SEQUENCE-NUMBER", "tag", "SIGNAL-INSTANCE", position),
            ),
            _ => Step::Fail(spec_missing("SIGNAL-REF", "tag", "SIGNAL-INSTANCE", position)),
        }
    } else if name == "FRAME".spec_bytes() {
        match (s.short_name, s.byte_length) {
            (Some(short_name), Some(byte_length)) => Step::Emit(
                FibexEvent::FrameEnd { short_name, byte_length },
                ReaderState { short_name: None, byte_length: None, ..s },
                next,
            ),
            (None, _) => Step::Fail(spec_missing("SHORT-NAME", "tag", "FRAME", position)),
            _ => Step::Fail(spec_missing("BYTE-LENGTH", "tag", "FRAME", position)),
        }
    } else if name == "PDU-INSTANCE".spec_bytes() {
        match (s.id, s.sequence_number, s.reference) {
            (Some(id), Some(sequence_number), Some(pdu_ref)) => Step::Emit(
                FibexEvent::PduInstance { id, pdu_ref, sequence_number },
                ReaderState { id: None, sequence_number: None, reference: None, ..s },
                next,
            ),
            (None, _, _) => Step::Fail(spec_missing("ID", "attribute", "PDU-INSTANCE", position)),
            (_, None, _) => Step::Fail(
                spec_missing("SEQUENCE-NUMBER", "tag", "PDU-INSTANCE", position),
            ),
            _ => Step::Fail(spec_missing("PDU-REF", "tag", "PDU-INSTANCE", position)),
        }
    } else if name == "MANUFACTURER-EXTENSION".spec_bytes() {
        Step::Emit(
            FibexEvent::ManufacturerExtension {
                message_type: s.message_type,
                message_info: s.message_info,
                application_id: s.application_id,
                context_id: s.context_id,
            },
            ReaderState {
                application_id: None,
                context_id: None,
                message_type: None,
                message_info: None,
                ..s
            },
            next,
        )
    } else if name == "SIGNAL".spec_bytes() {
        match (s.id, s.reference) {
            (Some(id), Some(coding_ref)) => Step::Emit(
                FibexEvent::Signal { id, coding_ref },
                ReaderState { id: None, reference: None, ..s },
                next,
            ),
            (None, _) => Step::Fail(spec_missing("ID", "attribute", "SIGNAL", position)),
            _ => Step::Fail(spec_missing("CODING-REF", "tag", "SIGNAL", position)),
        }
    } else if name == "CODING".spec_bytes() {
        match (s.id, s.base_data_type) {
            (Some(id), Some(base_data_type)) => Step::Emit(
                FibexEvent::Coding { id, base_data_type },
                ReaderState { id: None, base_data_type: None, ..s },
                next,
            ),
            (None, _) => Step::Fail(spec_missing("ID", "attribute", "CODING", position)),
            _ => Step::Fail(spec_missing("BASE-DATA-TYPE", "attribute", "CODED-TYPE", position)),
        }
    } else {
        Step::Go(s, next)
    }
}

/// What the token at index `i` does to the reader.
pub open spec fn spec_step(s: ReaderState, items: Seq<XmlItem>, i: int) -> Step {
    if 0 <= i < items.len() {
        match items[i].token {
            XmlToken::Start(name, attributes) => spec_on_start(s, name@, attributes@, items, i),
            XmlToken::Empty(name, attributes) => spec_on_empty(s, name@, attributes@, items, i),
            XmlToken::End(name) => spec_on_end(s, name@, items, i),
            XmlToken::Eof => Step::Emit(FibexEvent::Eof, s, i),
            XmlToken::Failure(_) => Step::Fail(ErrorKind::Xml),
            _ => Step::Go(s, spec_advance(items, i)),
        }
    } else {
        Step::Fail(ErrorKind::Xml)
    }
}

/// What one token did to the reader.
pub enum Stepped {
    /// The reader goes on with the token at the index, in the given state.
    Go(ReaderState, usize),
    /// The reader yields an event.
    Emit(FibexEvent, ReaderState, usize),
}

/// Whether `r` is the outcome `step`, in a document with the bytes
/// `document`.
pub open spec fn spec_stepped(r: Result<Stepped, Error>, step: Step, document: Seq<u8>) -> bool {
    match r {
        Ok(Stepped::Go(s, j)) => step == Step::Go(s, j as int),
        Ok(Stepped::Emit(e, s, j)) => step == Step::Emit(e, s, j as int),
        Err(e) => step is Fail && e.spec_tells(step->Fail_0, document),
    }
}

fn on_start(
    s: ReaderState,
    name: &Vec<u8>,
    attributes: &Vec<Result<XmlAttribute, String>>,
    items: &Vec<XmlItem>,
    i: usize,
    document: &[u8],
) -> (r: Result<Stepped, Error>)
    requires
        i < items@.len(),
    ensures
        spec_stepped(r, spec_on_start(s, name@, attributes@, items@, i as int), document@),
        r is Ok ==> (match r->Ok_0 {
            Stepped::Go(_, j) => j < items@.len(),
            Stepped::Emit(_, _, j) => j < items@.len(),
        }),
{
    let position = items[i].position;
    let next = advance(items, i);
    if is_tag(name, "PDU") {
        let id = attr(attributes, "ID", "PDU", document, position)?;
        Ok(
            Stepped::Emit(
                FibexEvent::PduStart { id },
                ReaderState { short_name: None, byte_length: None, kind: None, description: None, ..s },
                next,
            ),
        )
    } else if is_tag(name, "SHORT-NAME") {
        let t = read_text(items, next)?;
        Ok(Stepped::Go(ReaderState { short_name: Some(t), ..s }, advance(items, next)))
    } else if is_tag(name, "BYTE-LENGTH") {
        let n = read_usize(items, next)?;
        Ok(Stepped::Go(ReaderState { byte_length: Some(n), ..s }, advance(items, next)))
    } else if is_tag(name, "SIGNAL-INSTANCE") {
        let v = attr(attributes, "ID", "SIGNAL-INSTANCE", document, position)?;
        Ok(
            Stepped::Go(
                ReaderState { id: Some(v), reference: None, sequence_number: None, ..s },
                next,
            ),
        )
    } else if is_tag(name, "PDU-INSTANCE") {
        let v = attr(attributes, "ID", "PDU-INSTANCE", document, position)?;
        Ok(
            Stepped::Go(
                ReaderState { id: Some(v), reference: None, sequence_number: None, ..s },
                next,
            ),
        )
    } else if is_tag(name, "SEQUENCE-NUMBER") {
        let n = read_usize(items, next)?;
        Ok(Stepped::Go(ReaderState { sequence_number: Some(n), ..s }, advance(items, next)))
    } else if is_tag(name, "SIGNAL-REF") {
        let v = attr(attributes, "ID-REF", "SIGNAL-REF", document, position)?;
        Ok(Stepped::Go(ReaderState { reference: Some(v), ..s }, next))
    } else if is_tag(name, "PDU-REF") {
        let v = attr(attributes, "ID-REF", "PDU-REF", document, position)?;
        Ok(Stepped::Go(ReaderState { reference: Some(v), ..s }, next))
    } else if is_tag(name, "PDU-TYPE") || is_tag(name, "FRAME-TYPE") {
        let t = read_text(items, next)?;
        Ok(Stepped::Go(ReaderState { kind: Some(t), ..s }, advance(items, next)))
    } else if is_tag(name, "FRAME") {
        let id = attr(attributes, "ID", "PDU", document, position)?;
        Ok(
            Stepped::Emit(
                FibexEvent::FrameStart { id },
                ReaderState { short_name: None, byte_length: None, kind: None, ..s },
                next,
            ),
        )
    } else if is_tag(name, "MANUFACTURER-EXTENSION") {
        Ok(
            Stepped::Go(
                ReaderState {
                    application_id: None,
                    context_id: None,
                    message_info: None,
                    message_type: None,
                    ..s
                },
                next,
            ),
        )
    } else if is_tag(name, "APPLICATION_ID") {
        let t = read_text(items, next)?;
        Ok(Stepped::Go(ReaderState { application_id: Some(t), ..s }, advance(items, next)))
    } else if is_tag(name, "CONTEXT_ID") {
        let t = read_text(items, next)?;
        Ok(Stepped::Go(ReaderState { context_id: Some(t), ..s }, advance(items, next)))
    } else if is_tag(name, "MESSAGE_INFO") {
        let t = read_text(items, next)?;
        Ok(Stepped::Go(ReaderState { message_info: Some(t), ..s }, advance(items, next)))
    } else if is_tag(name, "MESSAGE_TYPE") {
        let t = read_text(items, next)?;
        Ok(Stepped::Go(ReaderState { message_type: Some(t), ..s }, advance(items, next)))
    } else if is_tag(name, "DESC") {
        let description = match read_text(items, next) {
            Ok(t) => Some(t),
            Err(_) => None,
        };
        Ok(Stepped::Go(ReaderState { description, ..s }, advance(items, next)))
    } else if is_tag(name, "CODING") {
        let v = attr(attributes, "ID", "CODING", document, position)?;
        Ok(Stepped::Go(ReaderState { id: Some(v), base_data_type: None, ..s }, next))
    } else if is_tag(name, "SIGNAL") {
        let v = attr(attributes, "ID", "SIGNAL", document, position)?;
        Ok(Stepped::Go(ReaderState { id: Some(v), reference: None, ..s }, next))
    } else if is_tag(name, "CODED-TYPE") {
        let base_data_type = match attr(
            attributes,
            "BASE-DATA-TYPE",
            "CODED-TYPE",
            document,
            position,
        ) {
            Ok(v) => Some(v),
            Err(_) => None,
        };
        Ok(Stepped::Go(ReaderState { base_data_type, ..s }, next))
    } else {
        Ok(Stepped::Go(s, next))
    }
}

fn on_empty(
    s: ReaderState,
    name: &Vec<u8>,
    attributes: &Vec<Result<XmlAttribute, String>>,
    items: &Vec<XmlItem>,
    i: usize,
    document: &[u8],
) -> (r: Result<Stepped, Error>)
    requires
        i < items@.len(),
    ensures
        spec_stepped(r, spec_on_empty(s, name@, attributes@, items@, i as int), document@),
        r is Ok ==> (match r->Ok_0 {
            Stepped::Go(_, j) => j < items@.len(),
            Stepped::Emit(_, _, j) => j < items@.len(),
        }),
{
    let position = items[i].position;
    let next = advance(items, i);
    if is_tag(name, "SIGNAL-REF") || is_tag(name, "CODING-REF") {
        let v = attr(attributes, "ID-REF", "SIGNAL-REF", document, position)?;
        Ok(Stepped::Go(ReaderState { reference: Some(v), ..s }, next))
    } else if is_tag(name, "PDU-REF") {
        let v = attr(attributes, "ID-REF", "PDU-REF", document, position)?;
        Ok(Stepped::Go(ReaderState { reference: Some(v), ..s }, next))
    } else if is_tag(name, "CODED-TYPE") {
        let base_data_type = match attr(
            attributes,
            "BASE-DATA-TYPE",
            "CODED-TYPE",
            document,
            position,
        ) {
            Ok(v) => Some(v),
            Err(_) => None,
        };
        Ok(Stepped::Go(ReaderState { base_data_type, ..s }, next))
    } else {
        Ok(Stepped::Go(s, next))
    }
}

fn on_end(
    s: ReaderState,
    name: &Vec<u8>,
    items: &Vec<XmlItem>,
    i: usize,
    document: &[u8],
) -> (r: Result<Stepped, Error>)
    requires
        i < items@.len(),
    ensures
        spec_stepped(r, spec_on_end(s, name@, items@, i as int), document@),
        r is Ok ==> (match r->Ok_0 {
            Stepped::Go(_, j) => j < items@.len(),
            Stepped::Emit(_, _, j) => j < items@.len(),
        }),
{
    let position = items[i].position;
    let next = advance(items, i);
    if is_tag(name, "PDU") {
        match s.byte_length {
            Some(byte_length) => Ok(
                Stepped::Emit(
                    FibexEvent::PduEnd {
                        short_name: s.short_name,
                        description: s.description,
                        byte_length,
                    },
                    ReaderState { short_name: None, description: None, byte_length: None, ..s },
                    next,
                ),
            ),
            None => Err(missing("BYTE-LENGTH", "tag", "PDU", document, position)),
        }
    } else if is_tag(name, "SIGNAL-INSTANCE") {
        match (s.id, s.sequence_number, s.reference) {
            (Some(id), Some(sequence_number), Some(signal_ref)) => Ok(
                Stepped::Emit(
                    FibexEvent::SignalInstance { id, sequence_number, signal_ref },
                    ReaderState { id: None, sequence_number: None, reference: None, ..s },
                    next,
                ),
            ),
            (None, _, _) => Err(missing("ID", "attribute", "SIGNAL-INSTANCE", document, position)),
            (_, None, _) => Err(
                missing("SEQUENCE-NUMBER", "tag", "SIGNAL-INSTANCE", document, position),
            ),
            _ => Err(missing("SIGNAL-REF", "tag", "SIGNAL-INSTANCE", document, position)),
        }
    } else if is_tag(name, "FRAME") {
        match (s.short_name, s.byte_length) {
            (Some(short_name), Some(byte_length)) => Ok(
                Stepped::Emit(
                    FibexEvent::FrameEnd { short_name, byte_length },
                    ReaderState { short_name: None, byte_length: None, ..s },
                    next,
                ),
            ),
            (None, _) => Err(missing("SHORT-NAME", "tag", "FRAME", document, position)),
            _ => Err(missing("BYTE-LENGTH", "tag", "FRAME", document, position)),
        }
    } else if is_tag(name, "PDU-INSTANCE") {
        match (s.id, s.sequence_number, s.reference) {
            (Some(id), Some(sequence_number), Some(pdu_ref)) => Ok(
                Stepped::Emit(
                    FibexEvent::PduInstance { id, pdu_ref, sequence_number },
                    ReaderState { id: None, sequence_number: None, reference: None, ..s },
                    next,
                ),
            ),
            (None, _, _) => Err(missing("ID", "attribute", "PDU-INSTANCE", document, position)),
            (_, None, _) => Err(
                missing("SEQUENCE-NUMBER", "tag", "PDU-INSTANCE", document, position),
            ),
            _ => Err(missing("PDU-REF", "tag", "PDU-INSTANCE", document, position)),
        }
    } else if is_tag(name, "MANUFACTURER-EXTENSION") {
        Ok(
            Stepped::Emit(
                FibexEvent::ManufacturerExtension {
                    message_type: s.message_type,
                    message_info: s.message_info,
                    application_id: s.application_id,
                    context_id: s.context_id,
                },
                ReaderState {
                    application_id: None,
                    context_id: None,
                    message_type: None,
                    message_info: None,
                    ..s
                },
                next,
            ),
        )
    } else if is_tag(name, "SIGNAL") {
        match (s.id, s.reference) {
            (Some(id), Some(coding_ref)) => Ok(
                Stepped::Emit(
                    FibexEvent::Signal { id, coding_ref },
                    ReaderState { id: None, reference: None, ..s },
                    next,
                ),
            ),
            (None, _) => Err(missing("ID", "attribute", "SIGNAL", document, position)),
            _ => Err(missing("CODING-REF", "tag", "SIGNAL", document, position)),
        }
    } else if is_tag(name, "CODING") {
        match (s.id, s.base_data_type) {
            (Some(id), Some(base_data_type)) => Ok(
                Stepped::Emit(
                    FibexEvent::Coding { id, base_data_type },
                    ReaderState { id: None, base_data_type: None, ..s },
                    next,
                ),
            ),
            (None, _) => Err(missing("ID", "attribute", "CODING", document, position)),
            _ => Err(missing("BASE-DATA-TYPE", "attribute", "CODED-TYPE", document, position)),
        }
    } else {
        Ok(Stepped::Go(s, next))
    }
}

fn step(s: ReaderState, items: &Vec<XmlItem>, i: usize, document: &[u8]) -> (r: Result<
    Stepped,
    Error,
>)
    requires
        i < items@.len(),
    ensures
        spec_stepped(r, spec_step(s, items@, i as int), document@),
        r is Ok ==> (match r->Ok_0 {
            Stepped::Go(_, j) => j < items@.len(),
            Stepped::Emit(_, _, j) => j < items@.len(),
        }),
{
    match &items[i].token {
        XmlToken::Start(name, attributes) => on_start(s, name, attributes, items, i, document),
        XmlToken::Empty(name, attributes) => on_empty(s, name, attributes, items, i, document),
        XmlToken::End(name) => on_end(s, name, items, i, document),
        XmlToken::Eof => Ok(Stepped::Emit(FibexEvent::Eof, s, i)),
        XmlToken::Failure(text) => Err(Error::Xml(text.clone())),
        _ => Ok(Stepped::Go(s, advance(items, i))),
    }
}

/// Read on until the next event.
///
/// `items` are the tokens of `document`. The result is the event, the state
/// of the reader behind it, and the index of the token with which reading
/// goes on.
pub fn read_event(s: ReaderState, items: &Vec<XmlItem>, i: usize, document: &[u8]) -> (r: Result<
    (FibexEvent, ReaderState, usize),
    Error,
>)
    requires
        i < items@.len(),
        spec_complete(items@),
    ensures
        match r {
            Ok((event, state, next)) => spec_read_event(s, items@, i as int) == Ok::<
                _,
                ErrorKind,
            >((event, state, next as int)) && next < items@.len() && i <= next,
            Err(e) => spec_read_event(s, items@, i as int) is Err && e.spec_tells(
                spec_read_event(s, items@, i as int)->Err_0,
                document@,
            ),
        },
{
    let mut state = s;
    let mut at: usize = i;
    loop
        invariant
            i <= at < items@.len(),
            spec_complete(items@),
            spec_read_event(s, items@, i as int) == spec_read_event(state, items@, at as int),
        decreases items@.len() - at,
    {
        match step(state, items, at, document)? {
            Stepped::Emit(event, after, next) => {
                return Ok((event, after, next));
            },
            Stepped::Go(after, next) => {
                if next <= at {
                    return Err(Error::Xml("the document has no end".to_owned()));
                }
                state = after;
                at = next;
            },
        }
    }
}

/// The next event of the reader that stands at index `i`, together with
/// its state and its place behind the event.
pub open spec fn spec_read_event(s: ReaderState, items: Seq<XmlItem>, i: int) -> Result<
    (FibexEvent, ReaderState, int),
    ErrorKind,
>
    decreases items.len() - i,
{
    match spec_step(s, items, i) {
        Step::Fail(k) => Err(k),
        Step::Emit(event, state, next) => Ok((event, state, next)),
        Step::Go(state, next) => if i < next <= items.len() {
            spec_read_event(state, items, next)
        } else {
            Err(ErrorKind::Xml)
        },
    }
}

} // verus!
