//! # XML documents as lists of tokens
//!
//! The descriptor models and the filter definitions are stored as XML. The
//! XML reader turns a document into events; this module turns each event
//! into a plain [`XmlToken`], so that everything that is made of a document
//! is a function of its tokens.
//!
//! What the XML reader does is not verified. It is used through a few
//! functions that hand on what it returns; the logic on top holds for
//! whatever tokens they deliver.
use quick_xml::events::attributes::Attribute;
use quick_xml::events::Event;
use quick_xml::name::QName;
use quick_xml::Reader;
use std::borrow::Cow;
use vstd::prelude::*;
use vstd::string::StringSliceAdditionalSpecFns;

verus! {

/// The XML reader of `quick_xml`.
#[verifier::external_type_specification]
#[verifier::external_body]
#[verifier::reject_recursive_types(R)]
pub struct ExReader<R>(quick_xml::Reader<R>);

/// An event of the XML reader of `quick_xml`.
#[verifier::external_type_specification]
#[verifier::external_body]
pub struct ExEvent<'a>(quick_xml::events::Event<'a>);

/// The kinds of events that are told apart.
#[derive(Debug, Clone, Copy, PartialEq, Eq, Structural)]
pub enum XmlKind {
    Start,
    Empty,
    End,
    Text,
    Eof,
    Other,
}

/// `Reader::from_reader` on a byte slice.
#[verifier::external_body]
fn xml_reader_over<'a>(input: &'a [u8]) -> Reader<&'a [u8]> {
    Reader::from_reader(input)
}

/// `Reader::read_event` on a reader over a byte slice. An error is handed
/// on as its text.
#[verifier::external_body]
fn xml_read_event<'a>(reader: &mut Reader<&'a [u8]>) -> Result<Event<'a>, String> {
    reader.read_event().map_err(|e| e.to_string())
}

/// `Reader::buffer_position`.
#[verifier::external_body]
fn xml_position(reader: &Reader<&[u8]>) -> usize {
    reader.buffer_position()
}

/// The variant of an `Event`.
#[verifier::external_body]
fn xml_event_kind(event: &Event) -> XmlKind {
    match event {
        Event::Start(_) => XmlKind::Start,
        Event::Empty(_) => XmlKind::Empty,
        Event::End(_) => XmlKind::End,
        Event::Text(_) => XmlKind::Text,
        Event::Eof => XmlKind::Eof,
        _ => XmlKind::Other,
    }
}

/// `BytesStart::local_name` and `BytesEnd::local_name`: the name of the
/// element that a tag opens or closes, without its namespace prefix. Empty
/// for an event that is no tag.
#[verifier::external_body]
fn xml_event_name(event: &Event) -> Vec<u8> {
    match event {
        Event::Start(e) | Event::Empty(e) => e.local_name().as_ref().to_vec(),
        Event::End(e) => e.local_name().as_ref().to_vec(),
        _ => Vec::new(),
    }
}

/// `BytesStart::attributes`: key and raw value of each attribute of a tag,
/// or the text of the error that the attribute makes.
#[verifier::external_body]
fn xml_event_attributes(event: &Event) -> Vec<Result<(Vec<u8>, Vec<u8>), String>> {
    match event {
        Event::Start(e) | Event::Empty(e) => e.attributes().map(
            |a| a.map(|a| (a.key.as_ref().to_vec(), a.value.to_vec())).map_err(|e| e.to_string()),
        ).collect(),
        _ => Vec::new(),
    }
}

/// `BytesText::unescape`: the content of a text event with its escape
/// sequences replaced, or the text of the error. `None` for an event that
/// is no text.
#[verifier::external_body]
fn xml_event_text(event: &Event) -> Option<Result<String, String>> {
    match event {
        Event::Text(e) => Some(e.unescape().map(|t| t.into_owned()).map_err(|e| e.to_string())),
        _ => None,
    }
}

/// What `Attribute::unescape_value` makes of the raw value of an attribute:
/// the value with its escape sequences replaced, or the text of the error.
pub uninterp spec fn spec_unescaped_value(raw: Seq<u8>) -> Result<Seq<char>, Seq<char>>;

/// Mathematical value of a text, or of the text of an error.
pub open spec fn spec_text_outcome(r: Result<String, String>) -> Result<Seq<char>, Seq<char>> {
    match r {
        Ok(text) => Ok(text@),
        Err(text) => Err(text@),
    }
}

/// `Attribute::unescape_value`: the value of an attribute with its escape
/// sequences replaced, or the text of the error. The outcome depends on the
/// bytes of the raw value alone.
#[verifier::external_body]
fn xml_unescape_value(raw: &[u8]) -> (r: Result<String, String>)
    ensures
        spec_text_outcome(r) == spec_unescaped_value(raw@),
{
    let attribute = Attribute { key: QName(b""), value: Cow::Borrowed(raw) };
    attribute.unescape_value().map(|t| t.into_owned()).map_err(|e| e.to_string())
}

/// One attribute of a tag.
#[derive(Debug, PartialEq, Eq)]
pub struct XmlAttribute {
    /// The name of the attribute as written, a namespace prefix included.
    pub key: Vec<u8>,
    /// The value with its escape sequences replaced, or the text of the
    /// error that replacing them made.
    pub value: Result<String, String>,
}

/// One token of a document.
#[derive(Debug, PartialEq, Eq)]
pub enum XmlToken {
    /// An opening tag: the name of the element without namespace prefix,
    /// and the attributes in the order of the document. An attribute that
    /// cannot be read is the text of its error.
    Start(Vec<u8>, Vec<Result<XmlAttribute, String>>),
    /// A tag of an element without content.
    Empty(Vec<u8>, Vec<Result<XmlAttribute, String>>),
    /// A closing tag.
    End(Vec<u8>),
    /// Text between tags, with its escape sequences replaced, or the text
    /// of the error that replacing them made.
    Text(Result<String, String>),
    /// Anything else: comments, declarations, processing instructions.
    Other,
    /// The end of the document.
    Eof,
    /// The document is no XML from here on; holds the text of the error.
    Failure(String),
}

/// A token and the byte position in the document behind it.
#[derive(Debug, PartialEq, Eq)]
pub struct XmlItem {
    pub token: XmlToken,
    pub position: usize,
}

/// Whether a list of tokens is the list of a whole document: it ends with
/// the end of the document or with a failure, and holds neither before.
pub open spec fn spec_complete(items: Seq<XmlItem>) -> bool {
    &&& items.len() > 0
    &&& (items.last().token is Eof || items.last().token is Failure)
    &&& forall|i: int|
        0 <= i < items.len() - 1 ==> !((#[trigger] items[i]).token is Eof) && !(
        items[i].token is Failure)
}

/// Whether `plain` is what the XML reader tells of one attribute, made
/// plain: the key as it is and the value with its escape sequences
/// replaced, or the text of the error as it is.
pub open spec fn spec_plain_attribute(
    raw: Result<(Vec<u8>, Vec<u8>), String>,
    plain: Result<XmlAttribute, String>,
) -> bool {
    match raw {
        Ok((key, value)) => plain is Ok && plain->Ok_0.key@ == key@ && spec_text_outcome(
            plain->Ok_0.value,
        ) == spec_unescaped_value(value@),
        Err(text) => plain is Err && plain->Err_0@ == text@,
    }
}

/// Make the attributes of a tag plain, each at its place.
fn attributes_of(raw: &Vec<Result<(Vec<u8>, Vec<u8>), String>>) -> (attributes: Vec<
    Result<XmlAttribute, String>,
>)
    ensures
        attributes@.len() == raw@.len(),
        forall|i: int|
            0 <= i < raw@.len() ==> spec_plain_attribute(raw@[i], #[trigger] attributes@[i]),
{
    let mut attributes: Vec<Result<XmlAttribute, String>> = Vec::new();
    let mut i: usize = 0;
    while i < raw.len()
        invariant
            i <= raw@.len(),
            attributes@.len() == i,
            forall|j: int| 0 <= j < i ==> spec_plain_attribute(raw@[j], #[trigger] attributes@[j]),
        decreases raw@.len() - i,
    {
        match &raw[i] {
            Ok((key, value)) => {
                attributes.push(
                    Ok(
                        XmlAttribute {
                            key: vstd::slice::slice_to_vec(key.as_slice()),
                            value: xml_unescape_value(value.as_slice()),
                        },
                    ),
                );
            },
            Err(text) => {
                attributes.push(Err(text.clone()));
            },
        }
        i += 1;
    }
    attributes
}

/// The token for an event of the given kind: a tag holds its name and,
/// where it opens an element, its attributes; a text event holds its text.
pub open spec fn spec_token_of(
    kind: XmlKind,
    name: Vec<u8>,
    attributes: Vec<Result<XmlAttribute, String>>,
    text: Option<Result<String, String>>,
) -> XmlToken {
    match kind {
        XmlKind::Start => XmlToken::Start(name, attributes),
        XmlKind::Empty => XmlToken::Empty(name, attributes),
        XmlKind::End => XmlToken::End(name),
        XmlKind::Text => match text {
            Some(text) => XmlToken::Text(text),
            None => XmlToken::Other,
        },
        XmlKind::Eof => XmlToken::Eof,
        XmlKind::Other => XmlToken::Other,
    }
}

/// Make an event plain, from its kind and from what it holds: the name and
/// the attributes of a tag, the text of a text event.
fn token_of(
    kind: XmlKind,
    name: Vec<u8>,
    attributes: Vec<Result<XmlAttribute, String>>,
    text: Option<Result<String, String>>,
) -> (token: XmlToken)
    ensures
        token == spec_token_of(kind, name, attributes, text),
{
    match kind {
        XmlKind::Start => XmlToken::Start(name, attributes),
        XmlKind::Empty => XmlToken::Empty(name, attributes),
        XmlKind::End => XmlToken::End(name),
        XmlKind::Text => match text {
            Some(text) => XmlToken::Text(text),
            None => XmlToken::Other,
        },
        XmlKind::Eof => XmlToken::Eof,
        XmlKind::Other => XmlToken::Other,
    }
}

/// Make plain what the XML reader has read: an event becomes its token, an
/// error a failure with the text of the error.
fn plain_token(read: Result<Event, String>) -> (token: XmlToken)
    ensures
        match read {
            Ok(_) => !(token is Failure),
            Err(text) => token == XmlToken::Failure(text),
        },
{
    match read {
        Ok(event) => token_of(
            xml_event_kind(&event),
            xml_event_name(&event),
            attributes_of(&xml_event_attributes(&event)),
            xml_event_text(&event),
        ),
        Err(text) => XmlToken::Failure(text),
    }
}

/// The tokens of a document, as the XML reader tells them event by event.
///
/// The list is complete: it ends with the end of the document, or with the
/// failure that stopped the reading, and holds neither before. A document
/// never has more tokens than bytes; should the XML reader deliver more,
/// the list ends with a failure too.
pub fn xml_tokens(input: &[u8]) -> (items: Vec<XmlItem>)
    ensures
        spec_complete(items@),
{
    let mut reader = xml_reader_over(input);
    let mut items: Vec<XmlItem> = Vec::new();
    let mut fuel: usize = input.len();
    loop
        invariant_except_break
            forall|i: int|
                0 <= i < items@.len() ==> !((#[trigger] items@[i]).token is Eof) && !(
                items@[i].token is Failure),
        ensures
            spec_complete(items@),
        decreases fuel,
    {
        let token = plain_token(xml_read_event(&mut reader));
        let position = xml_position(&reader);
        let last = match &token {
            XmlToken::Eof => true,
            XmlToken::Failure(_) => true,
            _ => false,
        };
        if last {
            items.push(XmlItem { token, position });
            break ;
        }
        if fuel == 0 {
            items.push(
                XmlItem {
                    token: XmlToken::Failure("more tokens than bytes".to_owned()),
                    position,
                },
            );
            break ;
        }
        items.push(XmlItem { token, position });
        fuel -= 1;
    }
    items
}

/// Whether a list of tokens is complete, see [`spec_complete`].
pub fn is_complete(items: &Vec<XmlItem>) -> (r: bool)
    ensures
        r == spec_complete(items@),
{
    let n: usize = items.len();
    if n == 0 {
        return false;
    }
    let mut i: usize = 0;
    while i < n - 1
        invariant
            n == items@.len(),
            i <= n - 1,
            forall|j: int|
                0 <= j < i ==> !((#[trigger] items@[j]).token is Eof) && !(
                items@[j].token is Failure),
        decreases n - i,
    {
        match &items[i].token {
            XmlToken::Eof => {
                return false;
            },
            XmlToken::Failure(_) => {
                return false;
            },
            _ => {},
        }
        i += 1;
    }
    match &items[n - 1].token {
        XmlToken::Eof => true,
        XmlToken::Failure(_) => true,
        _ => false,
    }
}

/// Whether two byte slices hold the same bytes.
pub fn bytes_eq(a: &[u8], b: &[u8]) -> (r: bool)
    ensures
        r == (a@ == b@),
{
    if a.len() != b.len() {
        return false;
    }
    let mut i: usize = 0;
    while i < a.len()
        invariant
            i <= a@.len(),
            a@.len() == b@.len(),
            forall|j: int| 0 <= j < i ==> a@[j] == b@[j],
        decreases a@.len() - i,
    {
        if a[i] != b[i] {
            return false;
        }
        i += 1;
    }
    assert(a@ =~= b@);
    true
}

/// Whether `name` is the name `tag`.
pub fn is_tag(name: &Vec<u8>, tag: &str) -> (r: bool)
    ensures
        r == (name@ == tag.spec_bytes()),
{
    bytes_eq(name.as_slice(), tag.as_bytes())
}

/// Whether two texts are the same.
pub fn str_eq(a: &str, b: &str) -> (r: bool)
    ensures
        r == (a@ == b@),
{
    proof {
        vstd::utf8::encode_utf8_decode_utf8(a@);
        vstd::utf8::encode_utf8_decode_utf8(b@);
    }
    bytes_eq(a.as_bytes(), b.as_bytes())
}

/// The number that a row of decimal digits stands for.
pub open spec fn spec_decimal_value(digits: Seq<u8>) -> nat
    decreases digits.len(),
{
    if digits.len() == 0 {
        0
    } else {
        spec_decimal_value(digits.drop_last()) * 10 + (digits.last() - 0x30) as nat
    }
}

/// Whether every byte is a decimal digit.
pub open spec fn spec_all_digits(digits: Seq<u8>) -> bool {
    forall|i: int| 0 <= i < digits.len() ==> 0x30 <= #[trigger] digits[i] <= 0x39
}

/// The digits of a number as it is written: without the plus sign that may
/// stand in front.
pub open spec fn spec_digits_of(text: Seq<u8>) -> Seq<u8> {
    if text.len() > 0 && text[0] == 0x2B {
        text.drop_first()
    } else {
        text
    }
}

/// The number that `text` is the decimal notation of: at least one digit,
/// nothing but digits behind an optional plus sign, and a value that a
/// `usize` can hold.
pub open spec fn spec_parse_usize(text: Seq<u8>) -> Option<usize> {
    let digits = spec_digits_of(text);
    if digits.len() > 0 && spec_all_digits(digits) && spec_decimal_value(digits) <= usize::MAX {
        Some(spec_decimal_value(digits) as usize)
    } else {
        None
    }
}

/// More digits make no smaller number.
pub proof fn lemma_decimal_value_grows(digits: Seq<u8>, n: int)
    requires
        0 <= n <= digits.len(),
        spec_all_digits(digits),
    ensures
        spec_decimal_value(digits.subrange(0, n)) <= spec_decimal_value(digits),
    decreases digits.len() - n,
{
    if n < digits.len() {
        assert(digits.subrange(0, n + 1).drop_last() =~= digits.subrange(0, n));
        assert(digits.subrange(0, n + 1).last() == digits[n]);
        lemma_decimal_value_grows(digits, n + 1);
    } else {
        assert(digits.subrange(0, n) =~= digits);
    }
}

/// Read a number in decimal notation.
pub fn parse_usize(text: &str) -> (r: Option<usize>)
    ensures
        r == spec_parse_usize(text.spec_bytes()),
{
    let bytes = text.as_bytes();
    let start: usize = if bytes.len() > 0 && bytes[0] == 0x2B {
        1
    } else {
        0
    };
    let ghost digits = spec_digits_of(bytes@);
    assert(digits =~= bytes@.subrange(start as int, bytes@.len() as int));
    if start == bytes.len() {
        return None;
    }
    let mut value: usize = 0;
    let mut i: usize = start;
    assert(digits.subrange(0, 0) =~= Seq::<u8>::empty());
    while i < bytes.len()
        invariant
            start <= i <= bytes@.len(),
            start < bytes@.len(),
            bytes@ == text.spec_bytes(),
            digits == spec_digits_of(bytes@),
            digits == bytes@.subrange(start as int, bytes@.len() as int),
            spec_all_digits(digits.subrange(0, i - start)),
            value == spec_decimal_value(digits.subrange(0, i - start)),
        decreases bytes@.len() - i,
    {
        let b = bytes[i];
        assert(digits[i - start] == b);
        if b < 0x30 || b > 0x39 {
            assert(!spec_all_digits(digits));
            return None;
        }
        let d: usize = (b - 0x30) as usize;
        proof {
            assert(digits.subrange(0, i + 1 - start).drop_last() =~= digits.subrange(
                0,
                i - start,
            ));
            assert(digits.subrange(0, i + 1 - start).last() == b);
            assert forall|j: int| 0 <= j < i + 1 - start implies 0x30 <= #[trigger] digits.subrange(
                0,
                i + 1 - start,
            )[j] <= 0x39 by {
                if j < i - start {
                    assert(digits.subrange(0, i - start)[j] == digits[j]);
                }
            }
        }
        if value > (usize::MAX - d) / 10 {
            proof {
                // the digits read so far are already too large, and so is
                // the whole number if only digits follow
                assert(value * 10 + d > usize::MAX);
                assert(spec_decimal_value(digits.subrange(0, i + 1 - start)) == value * 10 + d);
                if spec_all_digits(digits) {
                    lemma_decimal_value_grows(digits, i + 1 - start);
                }
            }
            return None;
        }
        value = value * 10 + d;
        i += 1;
    }
    assert(digits.subrange(0, i - start) =~= digits);
    Some(value)
}

/// The decimal digits of `n`.
pub open spec fn spec_decimal_digits(n: nat) -> Seq<u8>
    decreases n,
{
    if n < 10 {
        seq![(0x30 + n) as u8]
    } else {
        spec_decimal_digits(n / 10).push((0x30 + n % 10) as u8)
    }
}

/// Line and column of the byte position `position` in `text`: the line is
/// one more than the number of line feeds in front of the position, the
/// column the number of bytes between the last of them and the position.
pub open spec fn spec_line_and_column(text: Seq<u8>, position: nat) -> (nat, nat)
    decreases position,
{
    if position == 0 || position > text.len() {
        (1, 0)
    } else {
        let (line, column) = spec_line_and_column(text, (position - 1) as nat);
        if text[position - 1] == 0x0A {
            ((line + 1) as nat, 0)
        } else {
            (line, (column + 1) as nat)
        }
    }
}

/// Line and column of a byte position; a position behind the end of the
/// document counts as its start. The number of the last line has to fit
/// into a `usize`.
pub fn line_and_column(text: &[u8], position: usize) -> (r: (usize, usize))
    requires
        text@.len() < usize::MAX,
    ensures
        r.0 == spec_line_and_column(text@, position as nat).0,
        r.1 == spec_line_and_column(text@, position as nat).1,
{
    if position > text.len() {
        return (1, 0);
    }
    let mut line: usize = 1;
    let mut column: usize = 0;
    let mut i: usize = 0;
    while i < position
        invariant
            i <= position <= text@.len(),
            text@.len() < usize::MAX,
            line == spec_line_and_column(text@, i as nat).0,
            column == spec_line_and_column(text@, i as nat).1,
            line + column <= i + 1,
        decreases position - i,
    {
        if text[i] == 0x0A {
            line += 1;
            column = 0;
        } else {
            column += 1;
        }
        i += 1;
    }
    (line, column)
}

} // verus!
