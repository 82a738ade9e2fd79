//! # Load filter definitions from DLF files
//!
//! A DLF document is a list of `<filter>` elements. Each filter names the
//! ids of ECU, application and context, the largest level number that is to
//! be let through, and for each of them a flag that tells whether it counts:
//!
//! ``` text
//! <dltfilter>
//!   <filter>
//!     <ecuid>E1</ecuid>
//!     <applicationid>A1</applicationid>
//!     <contextid>C1</contextid>
//!     <logLevelMax>7</logLevelMax>
//!     <enableecuid>1</enableecuid>
//!     <enableapplicationid>1</enableapplicationid>
//!     <enablecontextid>1</enablecontextid>
//!     <enableLogLevelMax>1</enableLogLevelMax>
//!     <enablefilter>1</enablefilter>
//!   </filter>
//! </dltfilter>
//! ```
//!
//! A filter takes part only if it is enabled as a whole, its level is
//! enabled, and it has a level. Each of its ids takes part if it is enabled.
use crate::filtering::DltFilterConfig;
use crate::xml::{
    is_tag, parse_usize, spec_complete, spec_parse_usize, xml_tokens, XmlItem, XmlToken,
};
use vstd::prelude::*;
use vstd::string::StringExecFns;
use vstd::string::StringSliceAdditionalSpecFns;
use vstd::utf8::encode_utf8;

verus! {

/// Different kinds of errors.
#[derive(Debug, PartialEq, Eq)]
pub enum DlfError {
    /// Error while parsing.
    Parse(String),
    /// Error on the XML.
    Xml(String),
}

/// What an error says, without its text.
pub enum DlfErrorKind {
    Parse,
    Xml,
}

impl DlfError {
    pub open spec fn kind(self) -> DlfErrorKind {
        match self {
            DlfError::Parse(_) => DlfErrorKind::Parse,
            DlfError::Xml(_) => DlfErrorKind::Xml,
        }
    }

    /// The description of the error: the text that it holds.
    pub open spec fn spec_message(self) -> Seq<char> {
        match self {
            DlfError::Parse(text) => text@,
            DlfError::Xml(text) => text@,
        }
    }

    /// A human readable description of the error.
    pub fn message(&self) -> (description: String)
        ensures
            description@ == self.spec_message(),
    {
        match self {
            DlfError::Parse(text) => text.clone(),
            DlfError::Xml(text) => text.clone(),
        }
    }
}

/// What the DLF reader yields: the start and the end of a filter, the text
/// of each element of a filter, and the end of the document.
#[derive(Debug, PartialEq, Eq)]
pub enum DlfEvent {
    FilterStart,
    FilterEnd,
    EcuId(String),
    AppId(String),
    ContextId(String),
    LogLevelMax(String),
    EnableEcuId(String),
    EnableAppId(String),
    EnableContextId(String),
    EnableLogLevelMax(String),
    EnableFilter(String),
    Eof,
}

/// Mathematical value of a [`DlfEvent`].
pub enum DlfEventView {
    FilterStart,
    FilterEnd,
    EcuId(Seq<char>),
    AppId(Seq<char>),
    ContextId(Seq<char>),
    LogLevelMax(Seq<char>),
    EnableEcuId(Seq<char>),
    EnableAppId(Seq<char>),
    EnableContextId(Seq<char>),
    EnableLogLevelMax(Seq<char>),
    EnableFilter(Seq<char>),
    Eof,
}

impl View for DlfEvent {
    type V = DlfEventView;

    open spec fn view(&self) -> DlfEventView {
        match *self {
            DlfEvent::FilterStart => DlfEventView::FilterStart,
            DlfEvent::FilterEnd => DlfEventView::FilterEnd,
            DlfEvent::EcuId(t) => DlfEventView::EcuId(t@),
            DlfEvent::AppId(t) => DlfEventView::AppId(t@),
            DlfEvent::ContextId(t) => DlfEventView::ContextId(t@),
            DlfEvent::LogLevelMax(t) => DlfEventView::LogLevelMax(t@),
            DlfEvent::EnableEcuId(t) => DlfEventView::EnableEcuId(t@),
            DlfEvent::EnableAppId(t) => DlfEventView::EnableAppId(t@),
            DlfEvent::EnableContextId(t) => DlfEventView::EnableContextId(t@),
            DlfEvent::EnableLogLevelMax(t) => DlfEventView::EnableLogLevelMax(t@),
            DlfEvent::EnableFilter(t) => DlfEventView::EnableFilter(t@),
            DlfEvent::Eof => DlfEventView::Eof,
        }
    }
}

/// The index of the token behind the one at `i`; the last token is never
/// left.
pub open spec fn spec_next(items: Seq<XmlItem>, i: int) -> int {
    if i + 1 < items.len() {
        i + 1
    } else {
        i
    }
}

/// The index behind the closing tag of the element `name` that is open at
/// index `i`, where `depth` elements of the same name were opened inside
/// it. A document that ends before is broken.
pub open spec fn spec_skip_to_end(items: Seq<XmlItem>, i: int, name: Seq<u8>, depth: nat) -> Result<
    int,
    DlfErrorKind,
>
    decreases items.len() - i,
{
    if 0 <= i < items.len() {
        match items[i].token {
            XmlToken::Eof => Err(DlfErrorKind::Xml),
            XmlToken::Failure(_) => Err(DlfErrorKind::Xml),
            XmlToken::Start(n, _) => if n@ == name {
                spec_skip_to_end(items, i + 1, name, depth + 1)
            } else {
                spec_skip_to_end(items, i + 1, name, depth)
            },
            XmlToken::End(n) => if n@ == name {
                if depth == 0 {
                    Ok(spec_next(items, i))
                } else {
                    spec_skip_to_end(items, i + 1, name, (depth - 1) as nat)
                }
            } else {
                spec_skip_to_end(items, i + 1, name, depth)
            },
            _ => spec_skip_to_end(items, i + 1, name, depth),
        }
    } else {
        Err(DlfErrorKind::Xml)
    }
}

/// The text of the element `name` whose opening tag stands in front of
/// index `i`, and the index behind its closing tag. The text is the first
/// thing in the element; an element that is closed at once has the empty
/// text, and one that starts with anything else is broken.
pub open spec fn spec_get_text(items: Seq<XmlItem>, i: int, name: Seq<u8>) -> Result<
    (Seq<char>, int),
    DlfErrorKind,
> {
    if 0 <= i < items.len() {
        match items[i].token {
            XmlToken::Text(text) => match spec_skip_to_end(items, i + 1, name, 0) {
                Err(k) => Err(k),
                Ok(next) => match text {
                    Ok(t) => Ok((t@, next)),
                    Err(_) => Err(DlfErrorKind::Xml),
                },
            },
            XmlToken::End(n) => if n@ == name {
                Ok((Seq::<char>::empty(), spec_next(items, i)))
            } else {
                Err(DlfErrorKind::Xml)
            },
            _ => Err(DlfErrorKind::Xml),
        }
    } else {
        Err(DlfErrorKind::Xml)
    }
}

/// The event that an element of a filter makes of its text.
pub open spec fn spec_text_event(name: Seq<u8>, text: Seq<char>) -> Option<DlfEventView> {
    if name == "ecuid".spec_bytes() {
        Some(DlfEventView::EcuId(text))
    } else if name == "applicationid".spec_bytes() {
        Some(DlfEventView::AppId(text))
    } else if name == "contextid".spec_bytes() {
        Some(DlfEventView::ContextId(text))
    } else if name == "logLevelMax".spec_bytes() {
        Some(DlfEventView::LogLevelMax(text))
    } else if name == "enableecuid".spec_bytes() {
        Some(DlfEventView::EnableEcuId(text))
    } else if name == "enableapplicationid".spec_bytes() {
        Some(DlfEventView::EnableAppId(text))
    } else if name == "enablecontextid".spec_bytes() {
        Some(DlfEventView::EnableContextId(text))
    } else if name == "enableLogLevelMax".spec_bytes() {
        Some(DlfEventView::EnableLogLevelMax(text))
    } else if name == "enablefilter".spec_bytes() {
        Some(DlfEventView::EnableFilter(text))
    } else {
        None
    }
}

/// The next event from index `i` on, and the index behind it.
pub open spec fn spec_read_dlf(items: Seq<XmlItem>, i: int) -> Result<
    (DlfEventView, int),
    DlfErrorKind,
>
    decreases items.len() - i,
{
    if 0 <= i < items.len() {
        match items[i].token {
            XmlToken::Eof => Ok((DlfEventView::Eof, i)),
            XmlToken::Failure(_) => Err(DlfErrorKind::Xml),
            XmlToken::Start(n, _) => if n@ == "filter".spec_bytes() {
                Ok((DlfEventView::FilterStart, spec_next(items, i)))
            } else if spec_text_event(n@, Seq::<char>::empty()) is Some {
                match spec_get_text(items, i + 1, n@) {
                    Err(k) => Err(k),
                    Ok((text, next)) => Ok((spec_text_event(n@, text)->Some_0, next)),
                }
            } else {
                spec_read_dlf(items, i + 1)
            },
            XmlToken::End(n) => if n@ == "filter".spec_bytes() {
                Ok((DlfEventView::FilterEnd, spec_next(items, i)))
            } else {
                spec_read_dlf(items, i + 1)
            },
            _ => spec_read_dlf(items, i + 1),
        }
    } else {
        Err(DlfErrorKind::Xml)
    }
}

fn next(items: &Vec<XmlItem>, i: usize) -> (j: usize)
    requires
        i < items@.len(),
    ensures
        j as int == spec_next(items@, i as int),
        i <= j < items@.len(),
{
    if i < items.len() - 1 {
        i + 1
    } else {
        i
    }
}

fn skip_to_end(items: &Vec<XmlItem>, i: usize, name: &Vec<u8>) -> (r: Result<usize, DlfError>)
    requires
        i <= items@.len(),
    ensures
        match r {
            Ok(j) => spec_skip_to_end(items@, i as int, name@, 0) == Ok::<_, DlfErrorKind>(
                j as int,
            ) && i <= j < items@.len(),
            Err(e) => spec_skip_to_end(items@, i as int, name@, 0) == Err::<int, _>(e.kind()),
        },
{
    let mut at: usize = i;
    let mut depth: usize = 0;
    while at < items.len()
        invariant
            i <= at <= items@.len(),
            depth <= at - i,
            spec_skip_to_end(items@, i as int, name@, 0) == spec_skip_to_end(
                items@,
                at as int,
                name@,
                depth as nat,
            ),
        decreases items@.len() - at,
    {
        match &items[at].token {
            XmlToken::Eof => {
                return Err(DlfError::Xml("unexpected end of the document".to_owned()));
            },
            XmlToken::Failure(text) => {
                return Err(DlfError::Xml(text.clone()));
            },
            XmlToken::Start(n, _) => {
                if crate::xml::bytes_eq(n.as_slice(), name.as_slice()) {
                    depth += 1;
                }
            },
            XmlToken::End(n) => {
                if crate::xml::bytes_eq(n.as_slice(), name.as_slice()) {
                    if depth == 0 {
                        return Ok(next(items, at));
                    }
                    depth -= 1;
                }
            },
            _ => {},
        }
        at += 1;
    }
    Err(DlfError::Xml("unexpected end of the document".to_owned()))
}

fn get_text(items: &Vec<XmlItem>, i: usize, name: &Vec<u8>) -> (r: Result<
    (String, usize),
    DlfError,
>)
    requires
        i <= items@.len(),
    ensures
        match r {
            Ok((text, j)) => spec_get_text(items@, i as int, name@) == Ok::<_, DlfErrorKind>(
                (text@, j as int),
            ) && i <= j < items@.len(),
            Err(e) => spec_get_text(items@, i as int, name@) == Err::<(Seq<char>, int), _>(
                e.kind(),
            ),
        },
{
    if i >= items.len() {
        return Err(DlfError::Xml("unexpected end of the document".to_owned()));
    }
    match &items[i].token {
        XmlToken::Text(text) => {
            let after = skip_to_end(items, i + 1, name)?;
            match text {
                Ok(t) => Ok((t.clone(), after)),
                Err(e) => Err(DlfError::Xml(e.clone())),
            }
        },
        XmlToken::End(n) => {
            if crate::xml::bytes_eq(n.as_slice(), name.as_slice()) {
                Ok((String::new(), next(items, i)))
            } else {
                Err(DlfError::Xml("text not found".to_owned()))
            }
        },
        XmlToken::Failure(text) => Err(DlfError::Xml(text.clone())),
        _ => Err(DlfError::Xml("text not found".to_owned())),
    }
}

fn text_event(name: &Vec<u8>, text: String) -> (r: Option<DlfEvent>)
    ensures
        match r {
            Some(e) => spec_text_event(name@, text@) == Some(e@),
            None => spec_text_event(name@, text@) is None,
        },
        r is Some <==> spec_text_event(name@, Seq::<char>::empty()) is Some,
{
    if is_tag(name, "ecuid") {
        Some(DlfEvent::EcuId(text))
    } else if is_tag(name, "applicationid") {
        Some(DlfEvent::AppId(text))
    } else if is_tag(name, "contextid") {
        Some(DlfEvent::ContextId(text))
    } else if is_tag(name, "logLevelMax") {
        Some(DlfEvent::LogLevelMax(text))
    } else if is_tag(name, "enableecuid") {
        Some(DlfEvent::EnableEcuId(text))
    } else if is_tag(name, "enableapplicationid") {
        Some(DlfEvent::EnableAppId(text))
    } else if is_tag(name, "enablecontextid") {
        Some(DlfEvent::EnableContextId(text))
    } else if is_tag(name, "enableLogLevelMax") {
        Some(DlfEvent::EnableLogLevelMax(text))
    } else if is_tag(name, "enablefilter") {
        Some(DlfEvent::EnableFilter(text))
    } else {
        None
    }
}

fn is_text_element(name: &Vec<u8>) -> (r: bool)
    ensures
        r == spec_text_event(name@, Seq::<char>::empty()) is Some,
{
    is_tag(name, "ecuid") || is_tag(name, "applicationid") || is_tag(name, "contextid") || is_tag(
        name,
        "logLevelMax",
    ) || is_tag(name, "enableecuid") || is_tag(name, "enableapplicationid") || is_tag(
        name,
        "enablecontextid",
    ) || is_tag(name, "enableLogLevelMax") || is_tag(name, "enablefilter")
}

/// Read on until the next event.
fn read_dlf(items: &Vec<XmlItem>, start: usize) -> (r: Result<(DlfEvent, usize), DlfError>)
    requires
        start < items@.len(),
    ensures
        match r {
            Ok((event, after)) => spec_read_dlf(items@, start as int) == Ok::<_, DlfErrorKind>(
                (event@, after as int),
            ) && start <= after < items@.len(),
            Err(e) => spec_read_dlf(items@, start as int) == Err::<(DlfEventView, int), _>(
                e.kind(),
            ),
        },
{
    let mut at: usize = start;
    while at < items.len()
        invariant
            start <= at <= items@.len(),
            spec_read_dlf(items@, start as int) == spec_read_dlf(items@, at as int),
        decreases items@.len() - at,
    {
        match &items[at].token {
            XmlToken::Eof => {
                return Ok((DlfEvent::Eof, at));
            },
            XmlToken::Failure(text) => {
                return Err(DlfError::Xml(text.clone()));
            },
            XmlToken::Start(n, _) => {
                if is_tag(n, "filter") {
                    return Ok((DlfEvent::FilterStart, next(items, at)));
                } else if is_text_element(n) {
                    let (text, after) = get_text(items, at + 1, n)?;
                    match text_event(n, text) {
                        Some(event) => {
                            return Ok((event, after));
                        },
                        None => {
                            return Err(DlfError::Xml("text not found".to_owned()));
                        },
                    }
                }
            },
            XmlToken::End(n) => {
                if is_tag(n, "filter") {
                    return Ok((DlfEvent::FilterEnd, next(items, at)));
                }
            },
            _ => {},
        }
        at += 1;
    }
    Err(DlfError::Xml("unexpected end of the document".to_owned()))
}

/// Reader for DLF XML.
pub struct DlfReader {
    items: Vec<XmlItem>,
    at: usize,
}

impl DlfReader {
    #[verifier::type_invariant]
    spec fn well_formed(self) -> bool {
        self.at < self.items@.len() && spec_complete(self.items@)
    }

    /// The tokens of the document.
    pub closed spec fn spec_items(self) -> Seq<XmlItem> {
        self.items@
    }

    /// The index of the token at which the reader stands.
    pub closed spec fn spec_at(self) -> int {
        self.at as int
    }

    /// Returns a new reader for the given document. It stands at the first
    /// of the tokens that the XML reader makes of the document; what is
    /// read from given tokens is told by [`DlfReader::over`].
    pub fn from_reader(input: &[u8]) -> (r: Result<DlfReader, DlfError>)
        ensures
            r is Ok,
            r->Ok_0.spec_at() == 0,
            spec_complete(r->Ok_0.spec_items()),
    {
        Ok(DlfReader::over(xml_tokens(input)))
    }

    /// A reader over the tokens of a document.
    pub fn over(items: Vec<XmlItem>) -> (reader: DlfReader)
        requires
            spec_complete(items@),
        ensures
            reader.spec_at() == 0,
            reader.spec_items() == items@,
    {
        DlfReader { items, at: 0 }
    }

    /// The next event.
    pub fn read(&mut self) -> (r: Result<DlfEvent, DlfError>)
        ensures
            final(self).spec_items() == old(self).spec_items(),
            old(self).spec_at() <= final(self).spec_at() < old(self).spec_items().len(),
            match r {
                Ok(event) => spec_read_dlf(old(self).spec_items(), old(self).spec_at()) == Ok::<
                    _,
                    DlfErrorKind,
                >((event@, final(self).spec_at())),
                Err(e) => spec_read_dlf(old(self).spec_items(), old(self).spec_at()) == Err::<
                    (DlfEventView, int),
                    _,
                >(e.kind()),
            },
    {
        proof {
            use_type_invariant(&*self);
        }
        let (event, after) = read_dlf(&self.items, self.at)?;
        self.at = after;
        Ok(event)
    }

    /// The byte position in the document behind the last token that was
    /// read.
    pub fn position(&self) -> (position: usize)
        ensures
            0 <= self.spec_at() < self.spec_items().len(),
            position == self.spec_items()[self.spec_at()].position,
    {
        proof {
            use_type_invariant(self);
        }
        self.items[self.at].position
    }
}

/// What is known of a filter while it is read.
pub struct FilterDraft {
    pub ecu_id: Option<Seq<char>>,
    pub app_id: Option<Seq<char>>,
    pub context_id: Option<Seq<char>>,
    pub log_level_max: Option<u8>,
    pub enable_ecu_id: bool,
    pub enable_app_id: bool,
    pub enable_context_id: bool,
    pub enable_log_level_max: bool,
    pub enable_filter: bool,
}

/// A filter that takes part: its level, and those of its ids that are
/// enabled.
pub struct FilterDefinitionView {
    pub ecu_id: Option<Seq<char>>,
    pub app_id: Option<Seq<char>>,
    pub context_id: Option<Seq<char>>,
    pub log_level: u8,
}

impl FilterDraft {
    /// Nothing is known, nothing is enabled.
    pub open spec fn spec_new() -> FilterDraft {
        FilterDraft {
            ecu_id: None,
            app_id: None,
            context_id: None,
            log_level_max: None,
            enable_ecu_id: false,
            enable_app_id: false,
            enable_context_id: false,
            enable_log_level_max: false,
            enable_filter: false,
        }
    }

    /// What the filter is at its end: it takes part if it is enabled, its
    /// level is enabled and it has a level.
    pub open spec fn spec_finish(self) -> Option<FilterDefinitionView> {
        if self.enable_filter && self.enable_log_level_max && self.log_level_max is Some {
            Some(
                FilterDefinitionView {
                    ecu_id: if self.enable_ecu_id {
                        self.ecu_id
                    } else {
                        None
                    },
                    app_id: if self.enable_app_id {
                        self.app_id
                    } else {
                        None
                    },
                    context_id: if self.enable_context_id {
                        self.context_id
                    } else {
                        None
                    },
                    log_level: self.log_level_max->Some_0,
                },
            )
        } else {
            None
        }
    }
}

/// The number that a text of a filter stands for.
pub open spec fn spec_number(text: Seq<char>) -> Result<usize, DlfErrorKind> {
    match spec_parse_usize(encode_utf8(text)) {
        Some(n) => Ok(n),
        None => Err(DlfErrorKind::Parse),
    }
}

/// What an event of a filter does to what is known of the filter. A number
/// that cannot be read is an error. A level is cut to its lowest eight
/// bits; a flag is set by the number one.
pub open spec fn spec_apply(draft: FilterDraft, event: DlfEventView) -> Result<
    FilterDraft,
    DlfErrorKind,
> {
    match event {
        DlfEventView::EcuId(id) => Ok(FilterDraft { ecu_id: Some(id), ..draft }),
        DlfEventView::AppId(id) => Ok(FilterDraft { app_id: Some(id), ..draft }),
        DlfEventView::ContextId(id) => Ok(FilterDraft { context_id: Some(id), ..draft }),
        DlfEventView::LogLevelMax(t) => match spec_number(t) {
            Ok(n) => Ok(FilterDraft { log_level_max: Some(n as u8), ..draft }),
            Err(k) => Err(k),
        },
        DlfEventView::EnableEcuId(t) => match spec_number(t) {
            Ok(n) => Ok(FilterDraft { enable_ecu_id: n == 1, ..draft }),
            Err(k) => Err(k),
        },
        DlfEventView::EnableAppId(t) => match spec_number(t) {
            Ok(n) => Ok(FilterDraft { enable_app_id: n == 1, ..draft }),
            Err(k) => Err(k),
        },
        DlfEventView::EnableContextId(t) => match spec_number(t) {
            Ok(n) => Ok(FilterDraft { enable_context_id: n == 1, ..draft }),
            Err(k) => Err(k),
        },
        DlfEventView::EnableLogLevelMax(t) => match spec_number(t) {
            Ok(n) => Ok(FilterDraft { enable_log_level_max: n == 1, ..draft }),
            Err(k) => Err(k),
        },
        DlfEventView::EnableFilter(t) => match spec_number(t) {
            Ok(n) => Ok(FilterDraft { enable_filter: n == 1, ..draft }),
            Err(k) => Err(k),
        },
        _ => Ok(draft),
    }
}

/// The filter whose start was read, from index `i` on: what it is at its
/// end, and the index behind it. A filter that the document ends in does
/// not take part.
pub open spec fn spec_filter_definition(items: Seq<XmlItem>, i: int, draft: FilterDraft) -> Result<
    (Option<FilterDefinitionView>, int),
    DlfErrorKind,
>
    decreases items.len() - i,
{
    match spec_read_dlf(items, i) {
        Err(k) => Err(k),
        Ok((event, next)) => match event {
            DlfEventView::FilterEnd => Ok((draft.spec_finish(), next)),
            DlfEventView::Eof => Ok((None, next)),
            _ => match spec_apply(draft, event) {
                Err(k) => Err(k),
                Ok(after) => if i < next <= items.len() {
                    spec_filter_definition(items, next, after)
                } else {
                    Err(DlfErrorKind::Xml)
                },
            },
        },
    }
}

/// Mathematical value of a list of ids with their levels.
pub open spec fn spec_pairs(list: Seq<(String, u8)>) -> Seq<(Seq<char>, u8)> {
    Seq::new(list.len(), |i: int| (list[i].0@, list[i].1))
}

/// The ids and levels that were collected from the filters so far.
pub struct Collected {
    pub ecu_ids: Seq<(Seq<char>, u8)>,
    pub app_ids: Seq<(Seq<char>, u8)>,
    pub context_ids: Seq<(Seq<char>, u8)>,
}

impl Collected {
    /// The collection with the ids of one more filter.
    pub open spec fn spec_with(self, filter: FilterDefinitionView) -> Collected {
        Collected {
            ecu_ids: match filter.ecu_id {
                Some(id) => self.ecu_ids.push((id, filter.log_level)),
                None => self.ecu_ids,
            },
            app_ids: match filter.app_id {
                Some(id) => self.app_ids.push((id, filter.log_level)),
                None => self.app_ids,
            },
            context_ids: match filter.context_id {
                Some(id) => self.context_ids.push((id, filter.log_level)),
                None => self.context_ids,
            },
        }
    }
}

/// What is collected from the filters of a document from index `i` on, on
/// top of what was collected before.
pub open spec fn spec_collect(items: Seq<XmlItem>, i: int, collected: Collected) -> Result<
    Collected,
    DlfErrorKind,
>
    decreases items.len() - i,
{
    match spec_read_dlf(items, i) {
        Err(k) => Err(k),
        Ok((event, next)) => match event {
            DlfEventView::Eof => Ok(collected),
            DlfEventView::FilterStart => match spec_filter_definition(
                items,
                next,
                FilterDraft::spec_new(),
            ) {
                Err(k) => Err(k),
                Ok((filter, after)) => if i < after <= items.len() {
                    spec_collect(
                        items,
                        after,
                        match filter {
                            Some(f) => collected.spec_with(f),
                            None => collected,
                        },
                    )
                } else {
                    Err(DlfErrorKind::Xml)
                },
            },
            _ => if i < next <= items.len() {
                spec_collect(items, next, collected)
            } else {
                Err(DlfErrorKind::Xml)
            },
        },
    }
}

/// Mathematical value of an optional list of ids with their levels.
pub open spec fn spec_opt_pairs(list: Option<Vec<(String, u8)>>) -> Option<Seq<(Seq<char>, u8)>> {
    match list {
        Some(l) => Some(spec_pairs(l@)),
        None => None,
    }
}

/// A list, unless it is empty.
pub open spec fn spec_non_empty(list: Seq<(Seq<char>, u8)>) -> Option<Seq<(Seq<char>, u8)>> {
    if list.len() == 0 {
        None
    } else {
        Some(list)
    }
}

/// Whether `config` is the filter configuration that was collected: it
/// holds the lists that are not empty, counts the ids of applications and
/// contexts, and sets no lower bound for the level.
pub open spec fn spec_is_config_of(config: DltFilterConfig, collected: Collected) -> bool {
    &&& config.min_log_level is None
    &&& spec_opt_pairs(config.app_ids) == spec_non_empty(collected.app_ids)
    &&& spec_opt_pairs(config.ecu_ids) == spec_non_empty(collected.ecu_ids)
    &&& spec_opt_pairs(config.context_ids) == spec_non_empty(collected.context_ids)
    &&& config.app_id_count == collected.app_ids.len()
    &&& config.context_id_count == collected.context_ids.len()
}

/// A filter that takes part.
pub struct DlfFilterDefinition {
    pub ecu_id: Option<String>,
    pub app_id: Option<String>,
    pub context_id: Option<String>,
    pub log_level: u8,
}

impl View for DlfFilterDefinition {
    type V = FilterDefinitionView;

    open spec fn view(&self) -> FilterDefinitionView {
        FilterDefinitionView {
            ecu_id: crate::header::spec_opt_text(self.ecu_id),
            app_id: crate::header::spec_opt_text(self.app_id),
            context_id: crate::header::spec_opt_text(self.context_id),
            log_level: self.log_level,
        }
    }
}

/// What is known of a filter while it is read.
pub struct Draft {
    pub ecu_id: Option<String>,
    pub app_id: Option<String>,
    pub context_id: Option<String>,
    pub log_level_max: Option<u8>,
    pub enable_ecu_id: bool,
    pub enable_app_id: bool,
    pub enable_context_id: bool,
    pub enable_log_level_max: bool,
    pub enable_filter: bool,
}

impl View for Draft {
    type V = FilterDraft;

    open spec fn view(&self) -> FilterDraft {
        FilterDraft {
            ecu_id: crate::header::spec_opt_text(self.ecu_id),
            app_id: crate::header::spec_opt_text(self.app_id),
            context_id: crate::header::spec_opt_text(self.context_id),
            log_level_max: self.log_level_max,
            enable_ecu_id: self.enable_ecu_id,
            enable_app_id: self.enable_app_id,
            enable_context_id: self.enable_context_id,
            enable_log_level_max: self.enable_log_level_max,
            enable_filter: self.enable_filter,
        }
    }
}

fn parse_number(value: &String) -> (r: Result<usize, DlfError>)
    ensures
        match r {
            Ok(n) => spec_number(value@) == Ok::<_, DlfErrorKind>(n),
            Err(e) => spec_number(value@) == Err::<usize, _>(e.kind()),
        },
{
    match parse_usize(value.as_str()) {
        Some(n) => Ok(n),
        None => Err(DlfError::Parse("Invalid number ".to_owned().concat(value.as_str()))),
    }
}

impl Draft {
    fn new() -> (draft: Draft)
        ensures
            draft@ == FilterDraft::spec_new(),
    {
        Draft {
            ecu_id: None,
            app_id: None,
            context_id: None,
            log_level_max: None,
            enable_ecu_id: false,
            enable_app_id: false,
            enable_context_id: false,
            enable_log_level_max: false,
            enable_filter: false,
        }
    }

    fn apply(self, event: DlfEvent) -> (r: Result<Draft, DlfError>)
        ensures
            match r {
                Ok(draft) => spec_apply(self@, event@) == Ok::<_, DlfErrorKind>(draft@),
                Err(e) => spec_apply(self@, event@) == Err::<FilterDraft, _>(e.kind()),
            },
    {
        match event {
            DlfEvent::EcuId(id) => Ok(Draft { ecu_id: Some(id), ..self }),
            DlfEvent::AppId(id) => Ok(Draft { app_id: Some(id), ..self }),
            DlfEvent::ContextId(id) => Ok(Draft { context_id: Some(id), ..self }),
            DlfEvent::LogLevelMax(level) => {
                let n = parse_number(&level)?;
                Ok(Draft { log_level_max: Some(n as u8), ..self })
            },
            DlfEvent::EnableEcuId(value) => {
                let n = parse_number(&value)?;
                Ok(Draft { enable_ecu_id: n == 1usize, ..self })
            },
            DlfEvent::EnableAppId(value) => {
                let n = parse_number(&value)?;
                Ok(Draft { enable_app_id: n == 1usize, ..self })
            },
            DlfEvent::EnableContextId(value) => {
                let n = parse_number(&value)?;
                Ok(Draft { enable_context_id: n == 1usize, ..self })
            },
            DlfEvent::EnableLogLevelMax(value) => {
                let n = parse_number(&value)?;
                Ok(Draft { enable_log_level_max: n == 1usize, ..self })
            },
            DlfEvent::EnableFilter(value) => {
                let n = parse_number(&value)?;
                Ok(Draft { enable_filter: n == 1usize, ..self })
            },
            _ => Ok(self),
        }
    }

    fn finish(self) -> (r: Option<DlfFilterDefinition>)
        ensures
            match r {
                Some(f) => self@.spec_finish() == Some(f@),
                None => self@.spec_finish() is None,
            },
    {
        if self.enable_filter && self.enable_log_level_max {
            if let Some(log_level) = self.log_level_max {
                return Some(
                    DlfFilterDefinition {
                        ecu_id: if self.enable_ecu_id {
                            self.ecu_id
                        } else {
                            None
                        },
                        app_id: if self.enable_app_id {
                            self.app_id
                        } else {
                            None
                        },
                        context_id: if self.enable_context_id {
                            self.context_id
                        } else {
                            None
                        },
                        log_level,
                    },
                );
            }
        }
        None
    }
}

/// Mathematical value of an optional filter.
pub open spec fn spec_opt_definition(filter: Option<DlfFilterDefinition>) -> Option<
    FilterDefinitionView,
> {
    match filter {
        Some(f) => Some(f@),
        None => None,
    }
}

/// Read the rest of a filter whose start was read.
fn parse_filter_definition(items: &Vec<XmlItem>, start: usize) -> (r: Result<
    (Option<DlfFilterDefinition>, usize),
    DlfError,
>)
    requires
        start < items@.len(),
    ensures
        match r {
            Ok((filter, after)) => spec_filter_definition(
                items@,
                start as int,
                FilterDraft::spec_new(),
            ) == Ok::<_, DlfErrorKind>((spec_opt_definition(filter), after as int)) && start
                <= after < items@.len(),
            Err(e) => spec_filter_definition(items@, start as int, FilterDraft::spec_new())
                == Err::<(Option<FilterDefinitionView>, int), _>(e.kind()),
        },
{
    let mut draft = Draft::new();
    let mut at: usize = start;
    loop
        invariant
            start <= at < items@.len(),
            spec_filter_definition(items@, start as int, FilterDraft::spec_new())
                == spec_filter_definition(items@, at as int, draft@),
        decreases items@.len() - at,
    {
        let (event, after) = read_dlf(items, at)?;
        match event {
            DlfEvent::FilterEnd => {
                return Ok((draft.finish(), after));
            },
            DlfEvent::Eof => {
                return Ok((None, after));
            },
            _ => {
                draft = draft.apply(event)?;
                if after <= at {
                    return Err(DlfError::Xml("the document has no end".to_owned()));
                }
                at = after;
            },
        }
    }
}

/// One more id with its level, where there is an id.
fn push_id(list: &mut Vec<(String, u8)>, id: Option<String>, level: u8)
    ensures
        spec_pairs(final(list)@) == (match id {
            Some(text) => spec_pairs(old(list)@).push((text@, level)),
            None => spec_pairs(old(list)@),
        }),
{
    match id {
        Some(text) => {
            list.push((text, level));
            assert(spec_pairs(list@) =~= spec_pairs(old(list)@).push((text@, level)));
        },
        None => {},
    }
}

fn non_empty(list: Vec<(String, u8)>) -> (r: Option<Vec<(String, u8)>>)
    ensures
        spec_opt_pairs(r) == spec_non_empty(spec_pairs(list@)),
{
    if list.len() == 0 {
        None
    } else {
        Some(list)
    }
}

/// The lists of ids that are collected.
struct Lists {
    ecu_ids: Vec<(String, u8)>,
    app_ids: Vec<(String, u8)>,
    context_ids: Vec<(String, u8)>,
}

impl Lists {
    spec fn collected(self) -> Collected {
        Collected {
            ecu_ids: spec_pairs(self.ecu_ids@),
            app_ids: spec_pairs(self.app_ids@),
            context_ids: spec_pairs(self.context_ids@),
        }
    }

    fn add(&mut self, filter: Option<DlfFilterDefinition>)
        ensures
            final(self).collected() == (match filter {
                Some(f) => old(self).collected().spec_with(f@),
                None => old(self).collected(),
            }),
    {
        match filter {
            Some(f) => {
                push_id(&mut self.ecu_ids, f.ecu_id, f.log_level);
                push_id(&mut self.app_ids, f.app_id, f.log_level);
                push_id(&mut self.context_ids, f.context_id, f.log_level);
            },
            None => {},
        }
    }
}

/// Collect the ids of the filters of a document.
fn collect(items: &Vec<XmlItem>, start: usize) -> (r: Result<Lists, DlfError>)
    requires
        start < items@.len(),
    ensures
        match r {
            Ok(lists) => spec_collect(
                items@,
                start as int,
                Collected { ecu_ids: Seq::empty(), app_ids: Seq::empty(), context_ids: Seq::empty() },
            ) == Ok::<_, DlfErrorKind>(lists.collected()),
            Err(e) => spec_collect(
                items@,
                start as int,
                Collected { ecu_ids: Seq::empty(), app_ids: Seq::empty(), context_ids: Seq::empty() },
            ) == Err::<Collected, _>(e.kind()),
        },
{
    let mut lists = Lists { ecu_ids: Vec::new(), app_ids: Vec::new(), context_ids: Vec::new() };
    let ghost empty = Collected {
        ecu_ids: Seq::empty(),
        app_ids: Seq::empty(),
        context_ids: Seq::empty(),
    };
    assert(lists.collected() =~= empty) by {
        assert(spec_pairs(lists.ecu_ids@) =~= Seq::<(Seq<char>, u8)>::empty());
        assert(spec_pairs(lists.app_ids@) =~= Seq::<(Seq<char>, u8)>::empty());
        assert(spec_pairs(lists.context_ids@) =~= Seq::<(Seq<char>, u8)>::empty());
    }
    let mut at: usize = start;
    loop
        invariant
            start <= at < items@.len(),
            empty == (Collected {
                ecu_ids: Seq::empty(),
                app_ids: Seq::empty(),
                context_ids: Seq::empty(),
            }),
            spec_collect(items@, start as int, empty) == spec_collect(
                items@,
                at as int,
                lists.collected(),
            ),
        decreases items@.len() - at,
    {
        let (event, after) = read_dlf(items, at)?;
        match event {
            DlfEvent::Eof => {
                return Ok(lists);
            },
            DlfEvent::FilterStart => {
                let (filter, behind) = parse_filter_definition(items, after)?;
                if behind <= at {
                    return Err(DlfError::Xml("the document has no end".to_owned()));
                }
                lists.add(filter);
                at = behind;
            },
            _ => {
                if after <= at {
                    return Err(DlfError::Xml("the document has no end".to_owned()));
                }
                at = after;
            },
        }
    }
}

/// Parser for DLF XML.
pub struct DlfParser;

impl DlfParser {
    /// Returns the filter configuration that the document of the reader
    /// describes, or an error.
    ///
    /// The enabled ids of all filters that take part are collected, each
    /// with the level of its filter. More ids than an `i64` can count are
    /// an error.
    #[verifier::rlimit(40)]
    pub fn parse(reader: DlfReader) -> (r: Result<DltFilterConfig, DlfError>)
        ensures
            match spec_collect(
                reader.spec_items(),
                reader.spec_at(),
                Collected { ecu_ids: Seq::empty(), app_ids: Seq::empty(), context_ids: Seq::empty() },
            ) {
                Ok(collected) => if collected.app_ids.len() <= i64::MAX
                    && collected.context_ids.len() <= i64::MAX {
                    r is Ok && spec_is_config_of(r->Ok_0, collected)
                } else {
                    r is Err && r->Err_0.kind() is Parse
                },
                Err(k) => r is Err && r->Err_0.kind() == k,
            },
    {
        proof {
            use_type_invariant(&reader);
        }
        match collect(&reader.items, reader.at) {
            Ok(lists) => lists.config(),
            Err(e) => Err(e),
        }
    }
}

impl Lists {
    /// The filter configuration that holds the lists.
    #[verifier::rlimit(40)]
    fn config(self) -> (r: Result<DltFilterConfig, DlfError>)
        ensures
            if self.collected().app_ids.len() <= i64::MAX && self.collected().context_ids.len()
                <= i64::MAX {
                r is Ok && spec_is_config_of(r->Ok_0, self.collected())
            } else {
                r is Err && r->Err_0.kind() is Parse
            },
    {
        if self.app_ids.len() as u64 > 0x7FFF_FFFF_FFFF_FFFFu64 || self.context_ids.len() as u64
            > 0x7FFF_FFFF_FFFF_FFFFu64 {
            return Err(DlfError::Parse("too many ids".to_owned()));
        }
        let app_id_count: i64 = self.app_ids.len() as i64;
        let context_id_count: i64 = self.context_ids.len() as i64;
        Ok(
            DltFilterConfig {
                min_log_level: None,
                app_ids: non_empty(self.app_ids),
                ecu_ids: non_empty(self.ecu_ids),
                context_ids: non_empty(self.context_ids),
                app_id_count,
                context_id_count,
            },
        )
    }
}

} // verus!
