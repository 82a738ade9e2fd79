//! # The DLT data model
//!
//! Structured values for everything that can appear in a DLT message:
//! storage, standard and extended header, the type descriptor of a verbose
//! argument, the argument itself and the payload variants.
//!
//! Every type that owns text or byte buffers has a *view*: a mathematical
//! value in which strings are `Seq<char>` and buffers are `Seq<u8>`. All
//! contracts of the codec are stated over these views.
//!
//! Floating point numbers are carried as their IEEE-754 bit patterns, so
//! that values keep exact, bitwise equality through a decode and encode.
use vstd::prelude::*;

verus! {

/// Length of the storage header, pattern included.
pub const STORAGE_HEADER_LENGTH: u64 = 16;

/// Length of the mandatory part of the standard header.
pub const HEADER_MIN_LENGTH: u16 = 4;

/// Length of the extended header.
pub const EXTENDED_HEADER_LENGTH: u16 = 10;

/// Header-type flag: an extended header follows the standard header.
pub const WITH_EXTENDED_HEADER_FLAG: u8 = 0x01;

/// Header-type flag: the payload is big endian.
pub const BIG_ENDIAN_FLAG: u8 = 0x02;

/// Header-type flag: the standard header carries an ECU id.
pub const WITH_ECU_ID_FLAG: u8 = 0x04;

/// Header-type flag: the standard header carries a session id.
pub const WITH_SESSION_ID_FLAG: u8 = 0x08;

/// Header-type flag: the standard header carries a timestamp.
pub const WITH_TIMESTAMP_FLAG: u8 = 0x10;

/// Message-info flag: the payload is verbose.
pub const VERBOSE_FLAG: u8 = 0x01;

/// Byte order of the payload of a message.
#[derive(Debug, Clone, Copy, PartialEq, Eq, Structural)]
pub enum Endianness {
    /// Most significant byte first.
    Big,
    /// Least significant byte first.
    Little,
}

/// Severity of a log message. `Fatal` is the most severe level.
#[derive(Debug, Clone, Copy, PartialEq, Eq, Structural)]
pub enum LogLevel {
    Fatal,
    Error,
    Warn,
    Info,
    Debug,
    Verbose,
    /// A level number outside of `1..=6`.
    Invalid(u8),
}

impl LogLevel {
    /// The number that stands for the level on the wire; a larger number is
    /// a less severe level.
    pub open spec fn spec_value(self) -> u8 {
        match self {
            LogLevel::Fatal => 1,
            LogLevel::Error => 2,
            LogLevel::Warn => 3,
            LogLevel::Info => 4,
            LogLevel::Debug => 5,
            LogLevel::Verbose => 6,
            LogLevel::Invalid(n) => n,
        }
    }

    /// The level that a number stands for.
    pub open spec fn spec_from_value(n: u8) -> LogLevel {
        if n == 1 {
            LogLevel::Fatal
        } else if n == 2 {
            LogLevel::Error
        } else if n == 3 {
            LogLevel::Warn
        } else if n == 4 {
            LogLevel::Info
        } else if n == 5 {
            LogLevel::Debug
        } else if n == 6 {
            LogLevel::Verbose
        } else {
            LogLevel::Invalid(n)
        }
    }

    /// A level is canonical when it is the one its own number decodes to.
    pub open spec fn is_canonical(self) -> bool {
        self is Invalid ==> !(1 <= self->Invalid_0 <= 6)
    }

    #[verifier::when_used_as_spec(spec_value)]
    pub fn value(self) -> (n: u8)
        ensures
            n == self.spec_value(),
    {
        match self {
            LogLevel::Fatal => 1,
            LogLevel::Error => 2,
            LogLevel::Warn => 3,
            LogLevel::Info => 4,
            LogLevel::Debug => 5,
            LogLevel::Verbose => 6,
            LogLevel::Invalid(n) => n,
        }
    }

    #[verifier::when_used_as_spec(spec_from_value)]
    pub fn from_value(n: u8) -> (level: LogLevel)
        ensures
            level == LogLevel::spec_from_value(n),
            level.is_canonical(),
            level.spec_value() == n,
    {
        match n {
            1 => LogLevel::Fatal,
            2 => LogLevel::Error,
            3 => LogLevel::Warn,
            4 => LogLevel::Info,
            5 => LogLevel::Debug,
            6 => LogLevel::Verbose,
            _ => LogLevel::Invalid(n),
        }
    }
}

/// The level named by a number of a filter configuration: only the six
/// defined levels are accepted.
pub open spec fn spec_u8_to_log_level(v: u8) -> Option<LogLevel> {
    if 1 <= v <= 6 {
        Some(LogLevel::spec_from_value(v))
    } else {
        None
    }
}

#[verifier::when_used_as_spec(spec_u8_to_log_level)]
pub fn u8_to_log_level(v: u8) -> (level: Option<LogLevel>)
    ensures
        level == spec_u8_to_log_level(v),
{
    if 1 <= v && v <= 6 {
        Some(LogLevel::from_value(v))
    } else {
        None
    }
}

/// What an application trace message reports.
#[derive(Debug, Clone, Copy, PartialEq, Eq, Structural)]
pub enum ApplicationTraceType {
    Variable,
    FunctionIn,
    FunctionOut,
    State,
    Vfb,
    /// A type number outside of `1..=5`.
    Invalid(u8),
}

impl ApplicationTraceType {
    pub open spec fn spec_value(self) -> u8 {
        match self {
            ApplicationTraceType::Variable => 1,
            ApplicationTraceType::FunctionIn => 2,
            ApplicationTraceType::FunctionOut => 3,
            ApplicationTraceType::State => 4,
            ApplicationTraceType::Vfb => 5,
            ApplicationTraceType::Invalid(n) => n,
        }
    }

    pub open spec fn spec_from_value(n: u8) -> ApplicationTraceType {
        if n == 1 {
            ApplicationTraceType::Variable
        } else if n == 2 {
            ApplicationTraceType::FunctionIn
        } else if n == 3 {
            ApplicationTraceType::FunctionOut
        } else if n == 4 {
            ApplicationTraceType::State
        } else if n == 5 {
            ApplicationTraceType::Vfb
        } else {
            ApplicationTraceType::Invalid(n)
        }
    }

    pub open spec fn is_canonical(self) -> bool {
        self is Invalid ==> !(1 <= self->Invalid_0 <= 5)
    }

    #[verifier::when_used_as_spec(spec_value)]
    pub fn value(self) -> (n: u8)
        ensures
            n == self.spec_value(),
    {
        match self {
            ApplicationTraceType::Variable => 1,
            ApplicationTraceType::FunctionIn => 2,
            ApplicationTraceType::FunctionOut => 3,
            ApplicationTraceType::State => 4,
            ApplicationTraceType::Vfb => 5,
            ApplicationTraceType::Invalid(n) => n,
        }
    }

    #[verifier::when_used_as_spec(spec_from_value)]
    pub fn from_value(n: u8) -> (kind: ApplicationTraceType)
        ensures
            kind == ApplicationTraceType::spec_from_value(n),
            kind.is_canonical(),
            kind.spec_value() == n,
    {
        match n {
            1 => ApplicationTraceType::Variable,
            2 => ApplicationTraceType::FunctionIn,
            3 => ApplicationTraceType::FunctionOut,
            4 => ApplicationTraceType::State,
            5 => ApplicationTraceType::Vfb,
            _ => ApplicationTraceType::Invalid(n),
        }
    }
}

/// The bus a network trace message was taken from.
#[derive(Debug, Clone, Copy, PartialEq, Eq, Structural)]
pub enum NetworkTraceType {
    /// The type number `0`.
    Invalid,
    Ipc,
    Can,
    Flexray,
    Most,
    Ethernet,
    Someip,
    /// A type number above `6`.
    UserDefined(u8),
}

impl NetworkTraceType {
    pub open spec fn spec_value(self) -> u8 {
        match self {
            NetworkTraceType::Invalid => 0,
            NetworkTraceType::Ipc => 1,
            NetworkTraceType::Can => 2,
            NetworkTraceType::Flexray => 3,
            NetworkTraceType::Most => 4,
            NetworkTraceType::Ethernet => 5,
            NetworkTraceType::Someip => 6,
            NetworkTraceType::UserDefined(n) => n,
        }
    }

    pub open spec fn spec_from_value(n: u8) -> NetworkTraceType {
        if n == 0 {
            NetworkTraceType::Invalid
        } else if n == 1 {
            NetworkTraceType::Ipc
        } else if n == 2 {
            NetworkTraceType::Can
        } else if n == 3 {
            NetworkTraceType::Flexray
        } else if n == 4 {
            NetworkTraceType::Most
        } else if n == 5 {
            NetworkTraceType::Ethernet
        } else if n == 6 {
            NetworkTraceType::Someip
        } else {
            NetworkTraceType::UserDefined(n)
        }
    }

    pub open spec fn is_canonical(self) -> bool {
        self is UserDefined ==> self->UserDefined_0 > 6
    }

    #[verifier::when_used_as_spec(spec_value)]
    pub fn value(self) -> (n: u8)
        ensures
            n == self.spec_value(),
    {
        match self {
            NetworkTraceType::Invalid => 0,
            NetworkTraceType::Ipc => 1,
            NetworkTraceType::Can => 2,
            NetworkTraceType::Flexray => 3,
            NetworkTraceType::Most => 4,
            NetworkTraceType::Ethernet => 5,
            NetworkTraceType::Someip => 6,
            NetworkTraceType::UserDefined(n) => n,
        }
    }

    #[verifier::when_used_as_spec(spec_from_value)]
    pub fn from_value(n: u8) -> (kind: NetworkTraceType)
        ensures
            kind == NetworkTraceType::spec_from_value(n),
            kind.is_canonical(),
            kind.spec_value() == n,
    {
        match n {
            0 => NetworkTraceType::Invalid,
            1 => NetworkTraceType::Ipc,
            2 => NetworkTraceType::Can,
            3 => NetworkTraceType::Flexray,
            4 => NetworkTraceType::Most,
            5 => NetworkTraceType::Ethernet,
            6 => NetworkTraceType::Someip,
            _ => NetworkTraceType::UserDefined(n),
        }
    }
}

/// Direction of a control message.
#[derive(Debug, Clone, Copy, PartialEq, Eq, Structural)]
pub enum ControlType {
    Request,
    Response,
    /// A type number other than `1` and `2`.
    Unknown(u8),
}

impl ControlType {
    pub open spec fn spec_value(self) -> u8 {
        match self {
            ControlType::Request => 1,
            ControlType::Response => 2,
            ControlType::Unknown(n) => n,
        }
    }

    pub open spec fn spec_from_value(n: u8) -> ControlType {
        if n == 1 {
            ControlType::Request
        } else if n == 2 {
            ControlType::Response
        } else {
            ControlType::Unknown(n)
        }
    }

    pub open spec fn is_canonical(self) -> bool {
        self is Unknown ==> !(1 <= self->Unknown_0 <= 2)
    }

    #[verifier::when_used_as_spec(spec_value)]
    pub fn value(self) -> (n: u8)
        ensures
            n == self.spec_value(),
    {
        match self {
            ControlType::Request => 1,
            ControlType::Response => 2,
            ControlType::Unknown(n) => n,
        }
    }

    #[verifier::when_used_as_spec(spec_from_value)]
    pub fn from_value(n: u8) -> (kind: ControlType)
        ensures
            kind == ControlType::spec_from_value(n),
            kind.is_canonical(),
            kind.spec_value() == n,
    {
        match n {
            1 => ControlType::Request,
            2 => ControlType::Response,
            _ => ControlType::Unknown(n),
        }
    }
}

/// The kind of a message, as the message-info byte of the extended header
/// encodes it: three bits select the variant, four bits its detail.
#[derive(Debug, Clone, Copy, PartialEq, Eq, Structural)]
pub enum MessageType {
    Log(LogLevel),
    ApplicationTrace(ApplicationTraceType),
    NetworkTrace(NetworkTraceType),
    Control(ControlType),
    /// A variant number above `3`, kept together with its detail bits.
    Unknown(u8, u8),
}

impl MessageType {
    /// The three bits that select the variant.
    pub open spec fn spec_type_bits(self) -> u8 {
        match self {
            MessageType::Log(_) => 0,
            MessageType::ApplicationTrace(_) => 1,
            MessageType::NetworkTrace(_) => 2,
            MessageType::Control(_) => 3,
            MessageType::Unknown(t, _) => t,
        }
    }

    /// The four bits that hold the detail of the variant.
    pub open spec fn spec_info_bits(self) -> u8 {
        match self {
            MessageType::Log(l) => l.spec_value(),
            MessageType::ApplicationTrace(t) => t.spec_value(),
            MessageType::NetworkTrace(t) => t.spec_value(),
            MessageType::Control(t) => t.spec_value(),
            MessageType::Unknown(_, i) => i,
        }
    }

    /// The message type that a message-info byte encodes. The lowest bit of
    /// the byte is the verbose flag and plays no part here.
    pub open spec fn spec_from_msin(msin: u8) -> MessageType {
        let t = ((msin / 2) % 8) as u8;
        let i = (msin / 16) as u8;
        if t == 0 {
            MessageType::Log(LogLevel::spec_from_value(i))
        } else if t == 1 {
            MessageType::ApplicationTrace(ApplicationTraceType::spec_from_value(i))
        } else if t == 2 {
            MessageType::NetworkTrace(NetworkTraceType::spec_from_value(i))
        } else if t == 3 {
            MessageType::Control(ControlType::spec_from_value(i))
        } else {
            MessageType::Unknown(t, i)
        }
    }

    /// The message-info byte of a message of this type.
    pub open spec fn spec_msin(self, verbose: bool) -> u8 {
        ((self.spec_info_bits() % 16) * 16 + (self.spec_type_bits() % 8) * 2 + if verbose {
            1int
        } else {
            0int
        }) as u8
    }

    /// A message type is valid when its numbers fit their bit fields and no
    /// other value encodes to the same byte.
    pub open spec fn is_valid(self) -> bool {
        &&& self.spec_info_bits() < 16
        &&& match self {
            MessageType::Log(l) => l.is_canonical(),
            MessageType::ApplicationTrace(t) => t.is_canonical(),
            MessageType::NetworkTrace(t) => t.is_canonical(),
            MessageType::Control(t) => t.is_canonical(),
            MessageType::Unknown(t, _) => 4 <= t < 8,
        }
    }

    pub fn from_msin(msin: u8) -> (t: MessageType)
        ensures
            t == MessageType::spec_from_msin(msin),
            t.is_valid(),
    {
        let type_bits: u8 = (msin / 2) % 8;
        let info_bits: u8 = msin / 16;
        match type_bits {
            0 => MessageType::Log(LogLevel::from_value(info_bits)),
            1 => MessageType::ApplicationTrace(ApplicationTraceType::from_value(info_bits)),
            2 => MessageType::NetworkTrace(NetworkTraceType::from_value(info_bits)),
            3 => MessageType::Control(ControlType::from_value(info_bits)),
            _ => MessageType::Unknown(type_bits, info_bits),
        }
    }

    pub fn msin(&self, verbose: bool) -> (b: u8)
        ensures
            b == self.spec_msin(verbose),
    {
        let (type_bits, info_bits): (u8, u8) = match self {
            MessageType::Log(l) => (0, l.value()),
            MessageType::ApplicationTrace(t) => (1, t.value()),
            MessageType::NetworkTrace(t) => (2, t.value()),
            MessageType::Control(t) => (3, t.value()),
            MessageType::Unknown(t, i) => (*t, *i),
        };
        let flag: u8 = if verbose {
            1
        } else {
            0
        };
        (info_bits % 16) * 16 + (type_bits % 8) * 2 + flag
    }

    /// Decoding the byte of a valid message type gives the type back.
    pub proof fn lemma_msin_roundtrip(self, verbose: bool)
        requires
            self.is_valid(),
        ensures
            MessageType::spec_from_msin(self.spec_msin(verbose)) == self,
            (self.spec_msin(verbose) % 2 == 1) == verbose,
    {
    }
}

/// Width of a floating point or fixed point number.
#[derive(Debug, Clone, Copy, PartialEq, Eq, Structural)]
pub enum FloatWidth {
    Width32,
    Width64,
}

impl FloatWidth {
    /// The code of the width in the type-length field of a type descriptor.
    pub open spec fn spec_code(self) -> u32 {
        match self {
            FloatWidth::Width32 => 3,
            FloatWidth::Width64 => 4,
        }
    }

    pub open spec fn spec_bits(self) -> nat {
        match self {
            FloatWidth::Width32 => 32,
            FloatWidth::Width64 => 64,
        }
    }
}

/// Width of an integer.
#[derive(Debug, Clone, Copy, PartialEq, Eq, Structural)]
pub enum TypeLength {
    BitLength8,
    BitLength16,
    BitLength32,
    BitLength64,
    BitLength128,
}

impl TypeLength {
    /// The code of the width in the type-length field of a type descriptor.
    pub open spec fn spec_code(self) -> u32 {
        match self {
            TypeLength::BitLength8 => 1,
            TypeLength::BitLength16 => 2,
            TypeLength::BitLength32 => 3,
            TypeLength::BitLength64 => 4,
            TypeLength::BitLength128 => 5,
        }
    }

    pub open spec fn spec_bits(self) -> nat {
        match self {
            TypeLength::BitLength8 => 8,
            TypeLength::BitLength16 => 16,
            TypeLength::BitLength32 => 32,
            TypeLength::BitLength64 => 64,
            TypeLength::BitLength128 => 128,
        }
    }
}

/// The integer width with as many bits as a floating point width.
pub open spec fn spec_float_width_to_type_length(width: FloatWidth) -> TypeLength {
    match width {
        FloatWidth::Width32 => TypeLength::BitLength32,
        FloatWidth::Width64 => TypeLength::BitLength64,
    }
}

#[verifier::when_used_as_spec(spec_float_width_to_type_length)]
pub fn float_width_to_type_length(width: FloatWidth) -> (len: TypeLength)
    ensures
        len == spec_float_width_to_type_length(width),
{
    match width {
        FloatWidth::Width32 => TypeLength::BitLength32,
        FloatWidth::Width64 => TypeLength::BitLength64,
    }
}

/// What kind of value an argument holds, with the width where the kind has
/// one.
#[derive(Debug, Clone, Copy, PartialEq, Eq, Structural)]
pub enum TypeInfoKind {
    Bool,
    Signed(TypeLength),
    SignedFixedPoint(FloatWidth),
    Unsigned(TypeLength),
    UnsignedFixedPoint(FloatWidth),
    Float(FloatWidth),
    StringType,
    Raw,
}

/// How the text of a string argument is coded.
#[derive(Debug, Clone, Copy, PartialEq, Eq, Structural)]
pub enum StringCoding {
    ASCII,
    UTF8,
    /// One of the coding numbers `2..=7`, which have no meaning yet.
    Reserved(u8),
}

impl StringCoding {
    pub open spec fn spec_code(self) -> u32 {
        match self {
            StringCoding::ASCII => 0,
            StringCoding::UTF8 => 1,
            StringCoding::Reserved(n) => (n % 8) as u32,
        }
    }

    pub open spec fn spec_from_code(code: u32) -> StringCoding {
        if code == 0 {
            StringCoding::ASCII
        } else if code == 1 {
            StringCoding::UTF8
        } else {
            StringCoding::Reserved(code as u8)
        }
    }

    pub open spec fn is_valid(self) -> bool {
        self is Reserved ==> 2 <= self->Reserved_0 <= 7
    }
}

/// Bit of a type descriptor word: the value is a boolean.
pub const TYPE_INFO_BOOL_FLAG: u32 = 0x0000_0010;

/// Bit of a type descriptor word: the value is a signed integer.
pub const TYPE_INFO_SINT_FLAG: u32 = 0x0000_0020;

/// Bit of a type descriptor word: the value is an unsigned integer.
pub const TYPE_INFO_UINT_FLAG: u32 = 0x0000_0040;

/// Bit of a type descriptor word: the value is a floating point number.
pub const TYPE_INFO_FLOAT_FLAG: u32 = 0x0000_0080;

/// Bit of a type descriptor word: the value is a string.
pub const TYPE_INFO_STRING_FLAG: u32 = 0x0000_0200;

/// Bit of a type descriptor word: the value is a block of raw bytes.
pub const TYPE_INFO_RAW_FLAG: u32 = 0x0000_0400;

/// Bit of a type descriptor word: a name (and unit) precedes the value.
pub const TYPE_INFO_VARIABLE_INFO: u32 = 0x0000_0800;

/// Bit of a type descriptor word: the integer is a fixed point number.
pub const TYPE_INFO_FIXED_POINT_FLAG: u32 = 0x0000_1000;

/// Bit of a type descriptor word: trace information is attached.
pub const TYPE_INFO_TRACE_INFO: u32 = 0x0000_2000;

/// The decoded type descriptor that starts every verbose argument.
///
/// On the wire it is a 32 bit word: bits 0 to 3 hold the width code, bits 4
/// to 10 select the kind (exactly one of them is set), bit 11 announces a
/// name, bit 12 a fixed point number, bit 13 trace information, and bits 15
/// to 17 hold the string coding.
#[derive(Debug, Clone, Copy, PartialEq, Eq, Structural)]
pub struct TypeInfo {
    pub kind: TypeInfoKind,
    pub coding: StringCoding,
    pub has_variable_info: bool,
    pub has_trace_info: bool,
}

/// The integer width that a width code stands for.
pub open spec fn spec_type_length(code: u32) -> Option<TypeLength> {
    if code == 1 {
        Some(TypeLength::BitLength8)
    } else if code == 2 {
        Some(TypeLength::BitLength16)
    } else if code == 3 {
        Some(TypeLength::BitLength32)
    } else if code == 4 {
        Some(TypeLength::BitLength64)
    } else if code == 5 {
        Some(TypeLength::BitLength128)
    } else {
        None
    }
}

/// The floating point width that a width code stands for.
pub open spec fn spec_float_width(code: u32) -> Option<FloatWidth> {
    if code == 3 {
        Some(FloatWidth::Width32)
    } else if code == 4 {
        Some(FloatWidth::Width64)
    } else {
        None
    }
}

/// The kind that the kind bits, the fixed point bit and the width code of a
/// type descriptor word select; `None` where the combination is undefined.
pub open spec fn spec_kind_of(kind_bits: u32, fixed_point: bool, code: u32) -> Option<TypeInfoKind> {
    if kind_bits == 0x01 {
        Some(TypeInfoKind::Bool)
    } else if kind_bits == 0x02 {
        if fixed_point {
            match spec_float_width(code) {
                Some(w) => Some(TypeInfoKind::SignedFixedPoint(w)),
                None => None,
            }
        } else {
            match spec_type_length(code) {
                Some(l) => Some(TypeInfoKind::Signed(l)),
                None => None,
            }
        }
    } else if kind_bits == 0x04 {
        if fixed_point {
            match spec_float_width(code) {
                Some(w) => Some(TypeInfoKind::UnsignedFixedPoint(w)),
                None => None,
            }
        } else {
            match spec_type_length(code) {
                Some(l) => Some(TypeInfoKind::Unsigned(l)),
                None => None,
            }
        }
    } else if kind_bits == 0x08 {
        match spec_float_width(code) {
            Some(w) => Some(TypeInfoKind::Float(w)),
            None => None,
        }
    } else if kind_bits == 0x20 {
        Some(TypeInfoKind::StringType)
    } else if kind_bits == 0x40 {
        Some(TypeInfoKind::Raw)
    } else {
        None
    }
}

fn type_length_of(code: u32) -> (r: Option<TypeLength>)
    ensures
        r == spec_type_length(code),
{
    match code {
        1 => Some(TypeLength::BitLength8),
        2 => Some(TypeLength::BitLength16),
        3 => Some(TypeLength::BitLength32),
        4 => Some(TypeLength::BitLength64),
        5 => Some(TypeLength::BitLength128),
        _ => None,
    }
}

fn float_width_of(code: u32) -> (r: Option<FloatWidth>)
    ensures
        r == spec_float_width(code),
{
    match code {
        3 => Some(FloatWidth::Width32),
        4 => Some(FloatWidth::Width64),
        _ => None,
    }
}

impl TypeInfo {
    /// The type descriptor that a word encodes; `None` where the word
    /// selects no kind, several kinds, or a width that the kind does not
    /// have.
    pub open spec fn spec_from_word(info: u32) -> Option<TypeInfo> {
        let code = info % 16;
        let kind_bits = (info / 16) % 128;
        let fixed_point = (info / 4096) % 2 == 1;
        match spec_kind_of(kind_bits, fixed_point, code) {
            Some(kind) => Some(
                TypeInfo {
                    kind,
                    coding: StringCoding::spec_from_code((info / 32768) % 8),
                    has_variable_info: (info / 2048) % 2 == 1,
                    has_trace_info: (info / 8192) % 2 == 1,
                },
            ),
            None => None,
        }
    }

    /// The width code that the word of this descriptor carries.
    pub open spec fn spec_width_code(self) -> u32 {
        match self.kind {
            TypeInfoKind::Signed(l) => l.spec_code(),
            TypeInfoKind::Unsigned(l) => l.spec_code(),
            TypeInfoKind::SignedFixedPoint(w) => w.spec_code(),
            TypeInfoKind::UnsignedFixedPoint(w) => w.spec_code(),
            TypeInfoKind::Float(w) => w.spec_code(),
            TypeInfoKind::Bool => 0,
            TypeInfoKind::StringType => 0,
            TypeInfoKind::Raw => 0,
        }
    }

    /// The kind bit that the word of this descriptor carries.
    pub open spec fn spec_kind_flag(self) -> u32 {
        match self.kind {
            TypeInfoKind::Bool => TYPE_INFO_BOOL_FLAG,
            TypeInfoKind::Signed(_) => TYPE_INFO_SINT_FLAG,
            TypeInfoKind::SignedFixedPoint(_) => TYPE_INFO_SINT_FLAG,
            TypeInfoKind::Unsigned(_) => TYPE_INFO_UINT_FLAG,
            TypeInfoKind::UnsignedFixedPoint(_) => TYPE_INFO_UINT_FLAG,
            TypeInfoKind::Float(_) => TYPE_INFO_FLOAT_FLAG,
            TypeInfoKind::StringType => TYPE_INFO_STRING_FLAG,
            TypeInfoKind::Raw => TYPE_INFO_RAW_FLAG,
        }
    }

    pub open spec fn spec_is_fixed_point(&self) -> bool {
        self.kind is SignedFixedPoint || self.kind is UnsignedFixedPoint
    }

    /// The word that encodes this descriptor.
    pub open spec fn spec_word(self) -> u32 {
        (self.spec_width_code() + self.spec_kind_flag() + (if self.has_variable_info {
            TYPE_INFO_VARIABLE_INFO
        } else {
            0
        }) + (if self.spec_is_fixed_point() {
            TYPE_INFO_FIXED_POINT_FLAG
        } else {
            0
        }) + (if self.has_trace_info {
            TYPE_INFO_TRACE_INFO
        } else {
            0
        }) + self.coding.spec_code() * 32768) as u32
    }

    /// A descriptor is valid when its string coding is a number that the
    /// three coding bits can hold and that has no name of its own.
    pub open spec fn is_valid(self) -> bool {
        self.coding.is_valid()
    }

    /// Decode a type descriptor word.
    pub fn from_word(info: u32) -> (r: Option<TypeInfo>)
        ensures
            r == TypeInfo::spec_from_word(info),
            r is Some ==> r->Some_0.is_valid(),
    {
        let code: u32 = info % 16;
        let kind_bits: u32 = (info / 16) % 128;
        let fixed_point: bool = (info / 4096) % 2 == 1;
        let kind: Option<TypeInfoKind> = match kind_bits {
            0x01 => Some(TypeInfoKind::Bool),
            0x02 => if fixed_point {
                match float_width_of(code) {
                    Some(w) => Some(TypeInfoKind::SignedFixedPoint(w)),
                    None => None,
                }
            } else {
                match type_length_of(code) {
                    Some(l) => Some(TypeInfoKind::Signed(l)),
                    None => None,
                }
            },
            0x04 => if fixed_point {
                match float_width_of(code) {
                    Some(w) => Some(TypeInfoKind::UnsignedFixedPoint(w)),
                    None => None,
                }
            } else {
                match type_length_of(code) {
                    Some(l) => Some(TypeInfoKind::Unsigned(l)),
                    None => None,
                }
            },
            0x08 => match float_width_of(code) {
                Some(w) => Some(TypeInfoKind::Float(w)),
                None => None,
            },
            0x20 => Some(TypeInfoKind::StringType),
            0x40 => Some(TypeInfoKind::Raw),
            _ => None,
        };
        match kind {
            Some(kind) => {
                let coding_bits: u32 = (info / 32768) % 8;
                let coding = match coding_bits {
                    0 => StringCoding::ASCII,
                    1 => StringCoding::UTF8,
                    _ => StringCoding::Reserved(coding_bits as u8),
                };
                Some(
                    TypeInfo {
                        kind,
                        coding,
                        has_variable_info: (info / 2048) % 2 == 1,
                        has_trace_info: (info / 8192) % 2 == 1,
                    },
                )
            },
            None => None,
        }
    }

    /// Whether the value is a fixed point number.
    #[verifier::when_used_as_spec(spec_is_fixed_point)]
    pub fn is_fixed_point(&self) -> (r: bool)
        ensures
            r == self.spec_is_fixed_point(),
    {
        match self.kind {
            TypeInfoKind::SignedFixedPoint(_) => true,
            TypeInfoKind::UnsignedFixedPoint(_) => true,
            _ => false,
        }
    }

    /// Encode the descriptor as a word.
    pub fn word(&self) -> (info: u32)
        ensures
            info == self.spec_word(),
    {
        let code: u32 = match self.kind {
            TypeInfoKind::Signed(l) | TypeInfoKind::Unsigned(l) => match l {
                TypeLength::BitLength8 => 1,
                TypeLength::BitLength16 => 2,
                TypeLength::BitLength32 => 3,
                TypeLength::BitLength64 => 4,
                TypeLength::BitLength128 => 5,
            },
            TypeInfoKind::SignedFixedPoint(w) | TypeInfoKind::UnsignedFixedPoint(w) | TypeInfoKind::Float(w) => match w {
                FloatWidth::Width32 => 3,
                FloatWidth::Width64 => 4,
            },
            _ => 0,
        };
        let flag: u32 = match self.kind {
            TypeInfoKind::Bool => TYPE_INFO_BOOL_FLAG,
            TypeInfoKind::Signed(_) => TYPE_INFO_SINT_FLAG,
            TypeInfoKind::SignedFixedPoint(_) => TYPE_INFO_SINT_FLAG,
            TypeInfoKind::Unsigned(_) => TYPE_INFO_UINT_FLAG,
            TypeInfoKind::UnsignedFixedPoint(_) => TYPE_INFO_UINT_FLAG,
            TypeInfoKind::Float(_) => TYPE_INFO_FLOAT_FLAG,
            TypeInfoKind::StringType => TYPE_INFO_STRING_FLAG,
            TypeInfoKind::Raw => TYPE_INFO_RAW_FLAG,
        };
        let variable: u32 = if self.has_variable_info {
            TYPE_INFO_VARIABLE_INFO
        } else {
            0
        };
        let fixed: u32 = if self.is_fixed_point() {
            TYPE_INFO_FIXED_POINT_FLAG
        } else {
            0
        };
        let trace: u32 = if self.has_trace_info {
            TYPE_INFO_TRACE_INFO
        } else {
            0
        };
        let coding: u32 = match self.coding {
            StringCoding::ASCII => 0,
            StringCoding::UTF8 => 1,
            StringCoding::Reserved(n) => (n % 8) as u32,
        };
        code + flag + variable + fixed + trace + coding * 32768
    }

    /// Decoding the word of a valid descriptor gives the descriptor back,
    /// whatever its kind, width, coding and flags are.
    pub proof fn lemma_word_roundtrip(self)
        requires
            self.is_valid(),
        ensures
            TypeInfo::spec_from_word(self.spec_word()) == Some(self),
    {
        let info = self.spec_word();
        let c = self.spec_width_code();
        let k = self.spec_kind_flag();
        assert(c < 16);
        assert(k % 16 == 0 && k < 2048);
        assert(info % 16 == c);
        assert((info / 16) % 128 == k / 16);
        assert(((info / 2048) % 2 == 1) == self.has_variable_info);
        assert(((info / 4096) % 2 == 1) == self.spec_is_fixed_point());
        assert(((info / 8192) % 2 == 1) == self.has_trace_info);
        assert((info / 32768) % 8 == self.coding.spec_code());
    }
}

} // verus!
