//! # Arguments of verbose messages
//!
//! The payload of a verbose message is a list of arguments. Each argument
//! describes itself: it starts with a type descriptor word, which is
//! followed by an optional name and unit, by the scaling of a fixed point
//! number where the value is one, and by the value.
//!
//! Text is stored with a terminating zero byte and a length that counts
//! this byte; a block of raw bytes is stored with its plain length.
use crate::dlt::{Endianness, FloatWidth, TypeInfo, TypeInfoKind, TypeLength};
use crate::header::spec_opt_text;
use crate::wire::{
    put_u128, put_u16, put_u32, put_u64, spec_u128_bytes, spec_u16_bytes, spec_u32_bytes,
    spec_u64_bytes,
};
use vstd::prelude::*;
use vstd::string::StringSliceAdditionalSpecFns;
use vstd::utf8::encode_utf8;

verus! {

/// Append `bytes` to `buf`.
pub fn put_bytes(buf: &mut Vec<u8>, bytes: &[u8])
    ensures
        final(buf)@ == old(buf)@ + bytes@,
{
    let mut i: usize = 0;
    while i < bytes.len()
        invariant
            i <= bytes@.len(),
            buf@ == old(buf)@ + bytes@.subrange(0, i as int),
        decreases bytes@.len() - i,
    {
        buf.push(bytes[i]);
        i += 1;
        assert(buf@ =~= old(buf)@ + bytes@.subrange(0, i as int));
    }
    assert(bytes@.subrange(0, bytes@.len() as int) =~= bytes@);
}

impl TypeInfo {
    /// Encode the descriptor: its word in the given byte order.
    pub fn as_bytes(&self, e: Endianness) -> (bytes: Vec<u8>)
        ensures
            bytes@ == spec_u32_bytes(self.spec_word(), e),
    {
        let mut buf: Vec<u8> = Vec::new();
        put_u32(&mut buf, self.word(), e);
        assert(buf@ =~= spec_u32_bytes(self.spec_word(), e));
        buf
    }
}

/// The offset of a fixed point number.
#[derive(Debug, Clone, Copy, PartialEq, Eq, Structural)]
pub enum FixedPointValue {
    I32(i32),
    I64(i64),
}

/// Scaling of a fixed point number: the physical value is the stored
/// integer times `quantization` plus `offset`. The quantization is a 32 bit
/// floating point number, held here as its bit pattern.
#[derive(Debug, Clone, Copy, PartialEq, Eq, Structural)]
pub struct FixedPoint {
    pub quantization: u32,
    pub offset: FixedPointValue,
}

impl FixedPoint {
    /// The bytes of the scaling.
    pub open spec fn spec_bytes(self, e: Endianness) -> Seq<u8> {
        spec_u32_bytes(self.quantization, e) + match self.offset {
            FixedPointValue::I32(v) => spec_u32_bytes(v as u32, e),
            FixedPointValue::I64(v) => spec_u64_bytes(v as u64, e),
        }
    }

    /// Whether the offset has the width `width`.
    pub open spec fn spec_has_width(self, width: FloatWidth) -> bool {
        match width {
            FloatWidth::Width32 => self.offset is I32,
            FloatWidth::Width64 => self.offset is I64,
        }
    }

    /// Append the bytes of the scaling.
    pub fn put(&self, buf: &mut Vec<u8>, e: Endianness)
        ensures
            final(buf)@ == old(buf)@ + self.spec_bytes(e),
    {
        put_u32(buf, self.quantization, e);
        match self.offset {
            FixedPointValue::I32(v) => put_u32(buf, v as u32, e),
            FixedPointValue::I64(v) => put_u64(buf, v as u64, e),
        }
        assert(buf@ =~= old(buf)@ + self.spec_bytes(e));
    }
}

/// The value of an argument. Floating point numbers are held as their bit
/// patterns; a boolean keeps the byte that was stored for it.
#[derive(Debug, Clone, PartialEq, Eq)]
pub enum Value {
    Bool(u8),
    U8(u8),
    U16(u16),
    U32(u32),
    U64(u64),
    U128(u128),
    I8(i8),
    I16(i16),
    I32(i32),
    I64(i64),
    I128(i128),
    F32(u32),
    F64(u64),
    StringVal(String),
    Raw(Vec<u8>),
}

/// Mathematical value of a [`Value`].
pub enum ValueView {
    Bool(u8),
    U8(u8),
    U16(u16),
    U32(u32),
    U64(u64),
    U128(u128),
    I8(i8),
    I16(i16),
    I32(i32),
    I64(i64),
    I128(i128),
    F32(u32),
    F64(u64),
    StringVal(Seq<char>),
    Raw(Seq<u8>),
}

impl View for Value {
    type V = ValueView;

    open spec fn view(&self) -> ValueView {
        match *self {
            Value::Bool(v) => ValueView::Bool(v),
            Value::U8(v) => ValueView::U8(v),
            Value::U16(v) => ValueView::U16(v),
            Value::U32(v) => ValueView::U32(v),
            Value::U64(v) => ValueView::U64(v),
            Value::U128(v) => ValueView::U128(v),
            Value::I8(v) => ValueView::I8(v),
            Value::I16(v) => ValueView::I16(v),
            Value::I32(v) => ValueView::I32(v),
            Value::I64(v) => ValueView::I64(v),
            Value::I128(v) => ValueView::I128(v),
            Value::F32(v) => ValueView::F32(v),
            Value::F64(v) => ValueView::F64(v),
            Value::StringVal(s) => ValueView::StringVal(s@),
            Value::Raw(r) => ValueView::Raw(r@),
        }
    }
}

impl ValueView {
    /// The bytes of the value alone, without any length in front. Text is
    /// followed by its terminating zero byte.
    pub open spec fn spec_bytes(self, e: Endianness) -> Seq<u8> {
        match self {
            ValueView::Bool(v) => seq![v],
            ValueView::U8(v) => seq![v],
            ValueView::U16(v) => spec_u16_bytes(v, e),
            ValueView::U32(v) => spec_u32_bytes(v, e),
            ValueView::U64(v) => spec_u64_bytes(v, e),
            ValueView::U128(v) => spec_u128_bytes(v, e),
            ValueView::I8(v) => seq![v as u8],
            ValueView::I16(v) => spec_u16_bytes(v as u16, e),
            ValueView::I32(v) => spec_u32_bytes(v as u32, e),
            ValueView::I64(v) => spec_u64_bytes(v as u64, e),
            ValueView::I128(v) => spec_u128_bytes(v as u128, e),
            ValueView::F32(v) => spec_u32_bytes(v, e),
            ValueView::F64(v) => spec_u64_bytes(v, e),
            ValueView::StringVal(s) => encode_utf8(s) + seq![0u8],
            ValueView::Raw(r) => r,
        }
    }

    /// Whether the value is of the kind that a type descriptor announces.
    pub open spec fn spec_has_kind(self, kind: TypeInfoKind) -> bool {
        match kind {
            TypeInfoKind::Bool => self is Bool,
            TypeInfoKind::Signed(TypeLength::BitLength8) => self is I8,
            TypeInfoKind::Signed(TypeLength::BitLength16) => self is I16,
            TypeInfoKind::Signed(TypeLength::BitLength32) => self is I32,
            TypeInfoKind::Signed(TypeLength::BitLength64) => self is I64,
            TypeInfoKind::Signed(TypeLength::BitLength128) => self is I128,
            TypeInfoKind::SignedFixedPoint(FloatWidth::Width32) => self is I32,
            TypeInfoKind::SignedFixedPoint(FloatWidth::Width64) => self is I64,
            TypeInfoKind::Unsigned(TypeLength::BitLength8) => self is U8,
            TypeInfoKind::Unsigned(TypeLength::BitLength16) => self is U16,
            TypeInfoKind::Unsigned(TypeLength::BitLength32) => self is U32,
            TypeInfoKind::Unsigned(TypeLength::BitLength64) => self is U64,
            TypeInfoKind::Unsigned(TypeLength::BitLength128) => self is U128,
            TypeInfoKind::UnsignedFixedPoint(FloatWidth::Width32) => self is U32,
            TypeInfoKind::UnsignedFixedPoint(FloatWidth::Width64) => self is U64,
            TypeInfoKind::Float(FloatWidth::Width32) => self is F32,
            TypeInfoKind::Float(FloatWidth::Width64) => self is F64,
            TypeInfoKind::StringType => self is StringVal,
            TypeInfoKind::Raw => self is Raw,
        }
    }
}

impl Value {
    /// Number of bytes that the value alone takes.
    pub fn encoded_len(&self, e: Endianness) -> (n: usize)
        requires
            self@ is StringVal ==> spec_text_field_len(self@->StringVal_0) <= u16::MAX,
        ensures
            n == self@.spec_bytes(e).len(),
    {
        proof {
            match self@ {
                ValueView::U32(v) => crate::wire::lemma_u32_bytes_len(v, e),
                ValueView::I32(v) => crate::wire::lemma_u32_bytes_len(v as u32, e),
                ValueView::F32(v) => crate::wire::lemma_u32_bytes_len(v, e),
                ValueView::U64(v) => crate::wire::lemma_u64_bytes_len(v, e),
                ValueView::I64(v) => crate::wire::lemma_u64_bytes_len(v as u64, e),
                ValueView::F64(v) => crate::wire::lemma_u64_bytes_len(v, e),
                ValueView::U128(v) => crate::wire::lemma_u128_bytes_len(v, e),
                ValueView::I128(v) => crate::wire::lemma_u128_bytes_len(v as u128, e),
                _ => {},
            }
        }
        match self {
            Value::StringVal(s) => s.as_str().as_bytes().len() + 1,
            Value::Raw(r) => r.len(),
            Value::Bool(_) | Value::U8(_) | Value::I8(_) => 1,
            Value::U16(_) | Value::I16(_) => 2,
            Value::U32(_) | Value::I32(_) | Value::F32(_) => 4,
            Value::U64(_) | Value::I64(_) | Value::F64(_) => 8,
            Value::U128(_) | Value::I128(_) => 16,
        }
    }

    /// Append the bytes of the value alone.
    pub fn put(&self, buf: &mut Vec<u8>, e: Endianness)
        ensures
            final(buf)@ == old(buf)@ + self@.spec_bytes(e),
    {
        match self {
            Value::Bool(v) => {
                buf.push(*v);
            },
            Value::U8(v) => {
                buf.push(*v);
            },
            Value::U16(v) => put_u16(buf, *v, e),
            Value::U32(v) => put_u32(buf, *v, e),
            Value::U64(v) => put_u64(buf, *v, e),
            Value::U128(v) => put_u128(buf, *v, e),
            Value::I8(v) => {
                buf.push(*v as u8);
            },
            Value::I16(v) => put_u16(buf, *v as u16, e),
            Value::I32(v) => put_u32(buf, *v as u32, e),
            Value::I64(v) => put_u64(buf, *v as u64, e),
            Value::I128(v) => put_u128(buf, *v as u128, e),
            Value::F32(v) => put_u32(buf, *v, e),
            Value::F64(v) => put_u64(buf, *v, e),
            Value::StringVal(s) => {
                put_bytes(buf, s.as_str().as_bytes());
                buf.push(0);
            },
            Value::Raw(r) => put_bytes(buf, r.as_slice()),
        }
        assert(buf@ =~= old(buf)@ + self@.spec_bytes(e));
    }
}

/// One argument of a verbose message.
#[derive(Debug, Clone, PartialEq, Eq)]
pub struct Argument {
    pub type_info: TypeInfo,
    pub name: Option<String>,
    pub unit: Option<String>,
    pub fixed_point: Option<FixedPoint>,
    pub value: Value,
}

/// Mathematical value of an [`Argument`].
pub struct ArgumentView {
    pub type_info: TypeInfo,
    pub name: Option<Seq<char>>,
    pub unit: Option<Seq<char>>,
    pub fixed_point: Option<FixedPoint>,
    pub value: ValueView,
}

impl View for Argument {
    type V = ArgumentView;

    open spec fn view(&self) -> ArgumentView {
        ArgumentView {
            type_info: self.type_info,
            name: spec_opt_text(self.name),
            unit: spec_opt_text(self.unit),
            fixed_point: self.fixed_point,
            value: self.value@,
        }
    }
}

/// Number of bytes that a text field for `text` takes: the text and its
/// terminating zero byte.
pub open spec fn spec_text_field_len(text: Seq<char>) -> nat {
    encode_utf8(text).len() + 1
}

/// The length of the text field of an optional text, where there is one.
pub open spec fn spec_opt_len_bytes(text: Option<Seq<char>>, e: Endianness) -> Seq<u8> {
    match text {
        Some(t) => spec_u16_bytes(spec_text_field_len(t) as u16, e),
        None => Seq::<u8>::empty(),
    }
}

/// The text field of an optional text, where there is one.
pub open spec fn spec_opt_text_bytes(text: Option<Seq<char>>) -> Seq<u8> {
    match text {
        Some(t) => encode_utf8(t) + seq![0u8],
        None => Seq::<u8>::empty(),
    }
}

impl ArgumentView {
    /// What stands between the type descriptor and the value of a number:
    /// with variable info the lengths of name and unit and then both
    /// texts, and after that the scaling of a fixed point number.
    pub open spec fn spec_number_prefix(self, e: Endianness) -> Seq<u8> {
        (if self.type_info.has_variable_info {
            spec_opt_len_bytes(self.name, e) + spec_opt_len_bytes(self.unit, e)
                + spec_opt_text_bytes(self.name) + spec_opt_text_bytes(self.unit)
        } else {
            Seq::<u8>::empty()
        }) + (match self.fixed_point {
            Some(fp) => fp.spec_bytes(e),
            None => Seq::<u8>::empty(),
        })
    }

    /// The name of a boolean, a string or a block of raw bytes, with its
    /// length in front; empty without variable info.
    pub open spec fn spec_name_block(self, e: Endianness) -> Seq<u8> {
        if self.type_info.has_variable_info {
            spec_opt_len_bytes(self.name, e) + spec_opt_text_bytes(self.name)
        } else {
            Seq::<u8>::empty()
        }
    }

    /// The bytes of the argument.
    pub open spec fn spec_bytes(self, e: Endianness) -> Seq<u8> {
        let word = spec_u32_bytes(self.type_info.spec_word(), e);
        let value = self.value.spec_bytes(e);
        match self.type_info.kind {
            TypeInfoKind::StringType => word + spec_u16_bytes(value.len() as u16, e)
                + self.spec_name_block(e) + value,
            TypeInfoKind::Raw => word + spec_u16_bytes(value.len() as u16, e)
                + self.spec_name_block(e) + value,
            TypeInfoKind::Bool => word + self.spec_name_block(e) + value,
            _ => word + self.spec_number_prefix(e) + value,
        }
    }

    /// What the length fields of the wire format can hold: the fields of
    /// name and unit, and the value of a string or a block of raw bytes,
    /// have at most 65535 bytes.
    pub open spec fn spec_fits(self) -> bool {
        &&& self.name is Some ==> spec_text_field_len(self.name->Some_0) <= u16::MAX
        &&& self.unit is Some ==> spec_text_field_len(self.unit->Some_0) <= u16::MAX
        &&& self.value is StringVal ==> spec_text_field_len(self.value->StringVal_0) <= u16::MAX
        &&& self.value is Raw ==> self.value->Raw_0.len() <= u16::MAX
    }
}

/// Append the length of the text field of `text`, where there is one.
fn put_opt_len(buf: &mut Vec<u8>, text: &Option<String>, e: Endianness)
    requires
        text is Some ==> spec_text_field_len(text->Some_0@) <= u16::MAX,
    ensures
        final(buf)@ == old(buf)@ + spec_opt_len_bytes(spec_opt_text(*text), e),
{
    match text {
        Some(t) => {
            let n: usize = t.as_str().as_bytes().len();
            put_u16(buf, (n + 1) as u16, e);
        },
        None => {
            assert(buf@ =~= old(buf)@ + Seq::<u8>::empty());
        },
    }
}

/// Append the text field of `text`, where there is one.
fn put_opt_text(buf: &mut Vec<u8>, text: &Option<String>)
    ensures
        final(buf)@ == old(buf)@ + spec_opt_text_bytes(spec_opt_text(*text)),
{
    match text {
        Some(t) => {
            put_bytes(buf, t.as_str().as_bytes());
            buf.push(0);
            assert(buf@ =~= old(buf)@ + (encode_utf8(t@) + seq![0u8]));
        },
        None => {
            assert(buf@ =~= old(buf)@ + Seq::<u8>::empty());
        },
    }
}

impl Argument {
    fn put_name_block(&self, buf: &mut Vec<u8>, e: Endianness)
        requires
            self@.spec_fits(),
        ensures
            final(buf)@ == old(buf)@ + self@.spec_name_block(e),
    {
        if self.type_info.has_variable_info {
            put_opt_len(buf, &self.name, e);
            put_opt_text(buf, &self.name);
        }
        assert(buf@ =~= old(buf)@ + self@.spec_name_block(e));
    }

    fn put_number_prefix(&self, buf: &mut Vec<u8>, e: Endianness)
        requires
            self@.spec_fits(),
        ensures
            final(buf)@ == old(buf)@ + self@.spec_number_prefix(e),
    {
        let ghost start = buf@;
        if self.type_info.has_variable_info {
            put_opt_len(buf, &self.name, e);
            put_opt_len(buf, &self.unit, e);
            put_opt_text(buf, &self.name);
            put_opt_text(buf, &self.unit);
            assert(buf@ =~= start + (spec_opt_len_bytes(self@.name, e) + spec_opt_len_bytes(
                self@.unit,
                e,
            ) + spec_opt_text_bytes(self@.name) + spec_opt_text_bytes(self@.unit)));
        } else {
            assert(buf@ =~= start + Seq::<u8>::empty());
        }
        let ghost middle = buf@;
        match self.fixed_point {
            Some(fp) => fp.put(buf, e),
            None => {
                assert(buf@ =~= middle + Seq::<u8>::empty());
            },
        }
        assert(buf@ =~= old(buf)@ + self@.spec_number_prefix(e));
    }

    /// Append the bytes of the argument.
    #[verifier::rlimit(40)]
    pub fn put(&self, buf: &mut Vec<u8>, e: Endianness)
        requires
            self@.spec_fits(),
        ensures
            final(buf)@ == old(buf)@ + self@.spec_bytes(e),
    {
        put_u32(buf, self.type_info.word(), e);
        match self.type_info.kind {
            TypeInfoKind::StringType | TypeInfoKind::Raw => self.put_sized_value(buf, e),
            TypeInfoKind::Bool => self.put_named_value(buf, e),
            _ => self.put_number_value(buf, e),
        }
        assert(buf@ =~= old(buf)@ + self@.spec_bytes(e));
    }

    /// Length, name and value of a string or a block of raw bytes.
    fn put_sized_value(&self, buf: &mut Vec<u8>, e: Endianness)
        requires
            self@.spec_fits(),
        ensures
            final(buf)@ == old(buf)@ + (spec_u16_bytes(
                self@.value.spec_bytes(e).len() as u16,
                e,
            ) + self@.spec_name_block(e) + self@.value.spec_bytes(e)),
    {
        let n: usize = self.value.encoded_len(e);
        put_u16(buf, n as u16, e);
        self.put_name_block(buf, e);
        self.value.put(buf, e);
        assert(buf@ =~= old(buf)@ + (spec_u16_bytes(self@.value.spec_bytes(e).len() as u16, e)
            + self@.spec_name_block(e) + self@.value.spec_bytes(e)));
    }

    /// Name and value of a boolean.
    fn put_named_value(&self, buf: &mut Vec<u8>, e: Endianness)
        requires
            self@.spec_fits(),
        ensures
            final(buf)@ == old(buf)@ + (self@.spec_name_block(e) + self@.value.spec_bytes(e)),
    {
        self.put_name_block(buf, e);
        self.value.put(buf, e);
        assert(buf@ =~= old(buf)@ + (self@.spec_name_block(e) + self@.value.spec_bytes(e)));
    }

    /// Name, unit, scaling and value of a number.
    fn put_number_value(&self, buf: &mut Vec<u8>, e: Endianness)
        requires
            self@.spec_fits(),
        ensures
            final(buf)@ == old(buf)@ + (self@.spec_number_prefix(e) + self@.value.spec_bytes(e)),
    {
        self.put_number_prefix(buf, e);
        self.value.put(buf, e);
        assert(buf@ =~= old(buf)@ + (self@.spec_number_prefix(e) + self@.value.spec_bytes(e)));
    }

    /// Encode the argument.
    pub fn as_bytes(&self, e: Endianness) -> (bytes: Vec<u8>)
        requires
            self@.spec_fits(),
        ensures
            bytes@ == self@.spec_bytes(e),
    {
        let mut buf: Vec<u8> = Vec::new();
        self.put(&mut buf, e);
        assert(buf@ =~= self@.spec_bytes(e));
        buf
    }
}

} // verus!
