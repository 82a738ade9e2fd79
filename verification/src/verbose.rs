//! # Decoding of verbose arguments
//!
//! An argument starts with its type descriptor word. What follows depends
//! on the kind that the descriptor names:
//!
//! * numbers: name and unit (with variable info), the scaling (for fixed
//!   point numbers), the number;
//! * booleans: the name (with variable info), one byte;
//! * strings: the length of the text field, the name (with variable info),
//!   the text field;
//! * raw bytes: their number, the name (with variable info), the bytes.
//!
//! All numbers, the descriptor word included, are in the byte order of the
//! payload.
use crate::argument::{Argument, ArgumentView, FixedPoint, FixedPointValue, Value, ValueView};
use crate::dlt::{
    float_width_to_type_length, Endianness, FloatWidth, TypeInfo, TypeInfoKind, TypeLength,
};
use crate::header::spec_opt_text;
use crate::parse::{
    dlt_zero_terminated_string, parse_u128, parse_u16, parse_u32, parse_u64, parse_u8,
    spec_parse_u128, spec_parse_u16, spec_parse_u32, spec_parse_u64, spec_parse_u8, spec_take,
    spec_zero_terminated, take, DltParseError, ParseErrorKind, SpecParsed,
};
use vstd::prelude::*;
use vstd::slice::slice_to_vec;

verus! {

/// The type descriptor at the start of `s`. A word that names no kind, more
/// than one kind, or a width that its kind does not have, is malformed.
pub open spec fn spec_dlt_type_info(s: Seq<u8>, e: Endianness) -> SpecParsed<TypeInfo> {
    match spec_parse_u32(s, e) {
        Err(err) => Err(err),
        Ok((rest, word)) => match TypeInfo::spec_from_word(word) {
            Some(info) => Ok((rest, info)),
            None => Err(ParseErrorKind::ParsingHickup),
        },
    }
}

pub fn dlt_type_info<'a>(input: &'a [u8], e: Endianness) -> (r: Result<
    (&'a [u8], TypeInfo),
    DltParseError,
>)
    ensures
        match r {
            Ok((rest, info)) => spec_dlt_type_info(input@, e) == Ok::<_, ParseErrorKind>(
                (rest@, info),
            ),
            Err(err) => spec_dlt_type_info(input@, e) == Err::<(Seq<u8>, TypeInfo), _>(
                err.kind(),
            ),
        },
{
    let (rest, word) = parse_u32(input, e)?;
    match TypeInfo::from_word(word) {
        Some(info) => Ok((rest, info)),
        None => Err(DltParseError::ParsingHickup("dlt_type_info failed to parse".to_owned())),
    }
}

/// A text field with its length in front.
pub open spec fn spec_variable_name(s: Seq<u8>, e: Endianness) -> SpecParsed<Seq<char>> {
    match spec_parse_u16(s, e) {
        Err(err) => Err(err),
        Ok((rest, size)) => spec_zero_terminated(rest, size as nat),
    }
}

fn dlt_variable_name<'a>(input: &'a [u8], e: Endianness) -> (r: Result<
    (&'a [u8], String),
    DltParseError,
>)
    ensures
        match r {
            Ok((rest, name)) => spec_variable_name(input@, e) == Ok::<_, ParseErrorKind>(
                (rest@, name@),
            ),
            Err(err) => spec_variable_name(input@, e) == Err::<(Seq<u8>, Seq<char>), _>(
                err.kind(),
            ),
        },
{
    let (rest, size) = parse_u16(input, e)?;
    dlt_zero_terminated_string(rest, size as usize)
}

/// The name of a boolean, a string or a block of raw bytes: there with
/// variable info only.
pub open spec fn spec_opt_variable_name(s: Seq<u8>, e: Endianness, present: bool) -> SpecParsed<
    Option<Seq<char>>,
> {
    if present {
        match spec_variable_name(s, e) {
            Err(err) => Err(err),
            Ok((rest, name)) => Ok((rest, Some(name))),
        }
    } else {
        Ok((s, None))
    }
}

fn opt_variable_name<'a>(input: &'a [u8], e: Endianness, present: bool) -> (r: Result<
    (&'a [u8], Option<String>),
    DltParseError,
>)
    ensures
        match r {
            Ok((rest, name)) => spec_opt_variable_name(input@, e, present) == Ok::<
                _,
                ParseErrorKind,
            >((rest@, spec_opt_text(name))),
            Err(err) => spec_opt_variable_name(input@, e, present) == Err::<
                (Seq<u8>, Option<Seq<char>>),
                _,
            >(err.kind()),
        },
{
    if present {
        let (rest, name) = dlt_variable_name(input, e)?;
        Ok((rest, Some(name)))
    } else {
        Ok((input, None))
    }
}

/// Name and unit of a number: with variable info both lengths come first,
/// then both text fields.
pub open spec fn spec_variable_name_and_unit(
    s: Seq<u8>,
    e: Endianness,
    present: bool,
) -> SpecParsed<(Option<Seq<char>>, Option<Seq<char>>)> {
    if present {
        match spec_parse_u16(s, e) {
            Err(err) => Err(err),
            Ok((s1, name_size)) => match spec_parse_u16(s1, e) {
                Err(err) => Err(err),
                Ok((s2, unit_size)) => match spec_zero_terminated(s2, name_size as nat) {
                    Err(err) => Err(err),
                    Ok((s3, name)) => match spec_zero_terminated(s3, unit_size as nat) {
                        Err(err) => Err(err),
                        Ok((s4, unit)) => Ok((s4, (Some(name), Some(unit)))),
                    },
                },
            },
        }
    } else {
        Ok((s, (None, None)))
    }
}

fn dlt_variable_name_and_unit<'a>(input: &'a [u8], e: Endianness, present: bool) -> (r: Result<
    (&'a [u8], (Option<String>, Option<String>)),
    DltParseError,
>)
    ensures
        match r {
            Ok((rest, (name, unit))) => spec_variable_name_and_unit(input@, e, present) == Ok::<
                _,
                ParseErrorKind,
            >((rest@, (spec_opt_text(name), spec_opt_text(unit)))),
            Err(err) => spec_variable_name_and_unit(input@, e, present) == Err::<
                (Seq<u8>, (Option<Seq<char>>, Option<Seq<char>>)),
                _,
            >(err.kind()),
        },
{
    if present {
        let (s1, name_size) = parse_u16(input, e)?;
        let (s2, unit_size) = parse_u16(s1, e)?;
        let (s3, name) = dlt_zero_terminated_string(s2, name_size as usize)?;
        let (s4, unit) = dlt_zero_terminated_string(s3, unit_size as usize)?;
        Ok((s4, (Some(name), Some(unit))))
    } else {
        Ok((input, (None, None)))
    }
}

/// An unsigned integer of the given width.
pub open spec fn spec_dlt_uint(s: Seq<u8>, e: Endianness, width: TypeLength) -> SpecParsed<
    ValueView,
> {
    match width {
        TypeLength::BitLength8 => match spec_parse_u8(s) {
            Err(err) => Err(err),
            Ok((rest, v)) => Ok((rest, ValueView::U8(v))),
        },
        TypeLength::BitLength16 => match spec_parse_u16(s, e) {
            Err(err) => Err(err),
            Ok((rest, v)) => Ok((rest, ValueView::U16(v))),
        },
        TypeLength::BitLength32 => match spec_parse_u32(s, e) {
            Err(err) => Err(err),
            Ok((rest, v)) => Ok((rest, ValueView::U32(v))),
        },
        TypeLength::BitLength64 => match spec_parse_u64(s, e) {
            Err(err) => Err(err),
            Ok((rest, v)) => Ok((rest, ValueView::U64(v))),
        },
        TypeLength::BitLength128 => match spec_parse_u128(s, e) {
            Err(err) => Err(err),
            Ok((rest, v)) => Ok((rest, ValueView::U128(v))),
        },
    }
}

pub fn dlt_uint<'a>(input: &'a [u8], e: Endianness, width: TypeLength) -> (r: Result<
    (&'a [u8], Value),
    DltParseError,
>)
    ensures
        match r {
            Ok((rest, v)) => spec_dlt_uint(input@, e, width) == Ok::<_, ParseErrorKind>(
                (rest@, v@),
            ),
            Err(err) => spec_dlt_uint(input@, e, width) == Err::<(Seq<u8>, ValueView), _>(
                err.kind(),
            ),
        },
{
    match width {
        TypeLength::BitLength8 => {
            let (rest, v) = parse_u8(input)?;
            Ok((rest, Value::U8(v)))
        },
        TypeLength::BitLength16 => {
            let (rest, v) = parse_u16(input, e)?;
            Ok((rest, Value::U16(v)))
        },
        TypeLength::BitLength32 => {
            let (rest, v) = parse_u32(input, e)?;
            Ok((rest, Value::U32(v)))
        },
        TypeLength::BitLength64 => {
            let (rest, v) = parse_u64(input, e)?;
            Ok((rest, Value::U64(v)))
        },
        TypeLength::BitLength128 => {
            let (rest, v) = parse_u128(input, e)?;
            Ok((rest, Value::U128(v)))
        },
    }
}

/// A signed integer of the given width, in two's complement.
pub open spec fn spec_dlt_sint(s: Seq<u8>, e: Endianness, width: TypeLength) -> SpecParsed<
    ValueView,
> {
    match width {
        TypeLength::BitLength8 => match spec_parse_u8(s) {
            Err(err) => Err(err),
            Ok((rest, v)) => Ok((rest, ValueView::I8(v as i8))),
        },
        TypeLength::BitLength16 => match spec_parse_u16(s, e) {
            Err(err) => Err(err),
            Ok((rest, v)) => Ok((rest, ValueView::I16(v as i16))),
        },
        TypeLength::BitLength32 => match spec_parse_u32(s, e) {
            Err(err) => Err(err),
            Ok((rest, v)) => Ok((rest, ValueView::I32(v as i32))),
        },
        TypeLength::BitLength64 => match spec_parse_u64(s, e) {
            Err(err) => Err(err),
            Ok((rest, v)) => Ok((rest, ValueView::I64(v as i64))),
        },
        TypeLength::BitLength128 => match spec_parse_u128(s, e) {
            Err(err) => Err(err),
            Ok((rest, v)) => Ok((rest, ValueView::I128(v as i128))),
        },
    }
}

pub fn dlt_sint<'a>(input: &'a [u8], e: Endianness, width: TypeLength) -> (r: Result<
    (&'a [u8], Value),
    DltParseError,
>)
    ensures
        match r {
            Ok((rest, v)) => spec_dlt_sint(input@, e, width) == Ok::<_, ParseErrorKind>(
                (rest@, v@),
            ),
            Err(err) => spec_dlt_sint(input@, e, width) == Err::<(Seq<u8>, ValueView), _>(
                err.kind(),
            ),
        },
{
    match width {
        TypeLength::BitLength8 => {
            let (rest, v) = parse_u8(input)?;
            Ok((rest, Value::I8(v as i8)))
        },
        TypeLength::BitLength16 => {
            let (rest, v) = parse_u16(input, e)?;
            Ok((rest, Value::I16(v as i16)))
        },
        TypeLength::BitLength32 => {
            let (rest, v) = parse_u32(input, e)?;
            Ok((rest, Value::I32(v as i32)))
        },
        TypeLength::BitLength64 => {
            let (rest, v) = parse_u64(input, e)?;
            Ok((rest, Value::I64(v as i64)))
        },
        TypeLength::BitLength128 => {
            let (rest, v) = parse_u128(input, e)?;
            Ok((rest, Value::I128(v as i128)))
        },
    }
}

/// The bit pattern of a floating point number of the given width.
pub open spec fn spec_dlt_fint(s: Seq<u8>, e: Endianness, width: FloatWidth) -> SpecParsed<
    ValueView,
> {
    match width {
        FloatWidth::Width32 => match spec_parse_u32(s, e) {
            Err(err) => Err(err),
            Ok((rest, v)) => Ok((rest, ValueView::F32(v))),
        },
        FloatWidth::Width64 => match spec_parse_u64(s, e) {
            Err(err) => Err(err),
            Ok((rest, v)) => Ok((rest, ValueView::F64(v))),
        },
    }
}

pub fn dlt_fint<'a>(input: &'a [u8], e: Endianness, width: FloatWidth) -> (r: Result<
    (&'a [u8], Value),
    DltParseError,
>)
    ensures
        match r {
            Ok((rest, v)) => spec_dlt_fint(input@, e, width) == Ok::<_, ParseErrorKind>(
                (rest@, v@),
            ),
            Err(err) => spec_dlt_fint(input@, e, width) == Err::<(Seq<u8>, ValueView), _>(
                err.kind(),
            ),
        },
{
    match width {
        FloatWidth::Width32 => {
            let (rest, v) = parse_u32(input, e)?;
            Ok((rest, Value::F32(v)))
        },
        FloatWidth::Width64 => {
            let (rest, v) = parse_u64(input, e)?;
            Ok((rest, Value::F64(v)))
        },
    }
}

/// The scaling of a fixed point number: a 32 bit quantization and an offset
/// of the width of the number.
pub open spec fn spec_dlt_fixed_point(s: Seq<u8>, e: Endianness, width: FloatWidth) -> SpecParsed<
    FixedPoint,
> {
    match spec_parse_u32(s, e) {
        Err(err) => Err(err),
        Ok((s1, quantization)) => match width {
            FloatWidth::Width32 => match spec_parse_u32(s1, e) {
                Err(err) => Err(err),
                Ok((s2, v)) => Ok(
                    (s2, FixedPoint { quantization, offset: FixedPointValue::I32(v as i32) }),
                ),
            },
            FloatWidth::Width64 => match spec_parse_u64(s1, e) {
                Err(err) => Err(err),
                Ok((s2, v)) => Ok(
                    (s2, FixedPoint { quantization, offset: FixedPointValue::I64(v as i64) }),
                ),
            },
        },
    }
}

pub fn dlt_fixed_point<'a>(input: &'a [u8], e: Endianness, width: FloatWidth) -> (r: Result<
    (&'a [u8], FixedPoint),
    DltParseError,
>)
    ensures
        match r {
            Ok((rest, fp)) => spec_dlt_fixed_point(input@, e, width) == Ok::<_, ParseErrorKind>(
                (rest@, fp),
            ),
            Err(err) => spec_dlt_fixed_point(input@, e, width) == Err::<(Seq<u8>, FixedPoint), _>(
                err.kind(),
            ),
        },
{
    let (s1, quantization) = parse_u32(input, e)?;
    match width {
        FloatWidth::Width32 => {
            let (s2, v) = parse_u32(s1, e)?;
            Ok((s2, FixedPoint { quantization, offset: FixedPointValue::I32(v as i32) }))
        },
        FloatWidth::Width64 => {
            let (s2, v) = parse_u64(s1, e)?;
            Ok((s2, FixedPoint { quantization, offset: FixedPointValue::I64(v as i64) }))
        },
    }
}

/// The scaling that precedes the value of a fixed point number; nothing for
/// any other kind.
pub open spec fn spec_opt_fixed_point(s: Seq<u8>, e: Endianness, kind: TypeInfoKind) -> SpecParsed<
    Option<FixedPoint>,
> {
    match kind {
        TypeInfoKind::SignedFixedPoint(w) | TypeInfoKind::UnsignedFixedPoint(w) => {
            match spec_dlt_fixed_point(s, e, w) {
                Err(err) => Err(err),
                Ok((rest, fp)) => Ok((rest, Some(fp))),
            }
        },
        _ => Ok((s, None)),
    }
}

fn opt_fixed_point<'a>(input: &'a [u8], e: Endianness, kind: TypeInfoKind) -> (r: Result<
    (&'a [u8], Option<FixedPoint>),
    DltParseError,
>)
    ensures
        match r {
            Ok((rest, fp)) => spec_opt_fixed_point(input@, e, kind) == Ok::<_, ParseErrorKind>(
                (rest@, fp),
            ),
            Err(err) => spec_opt_fixed_point(input@, e, kind) == Err::<
                (Seq<u8>, Option<FixedPoint>),
                _,
            >(err.kind()),
        },
{
    match kind {
        TypeInfoKind::SignedFixedPoint(w) | TypeInfoKind::UnsignedFixedPoint(w) => {
            let (rest, fp) = dlt_fixed_point(input, e, w)?;
            Ok((rest, Some(fp)))
        },
        _ => Ok((input, None)),
    }
}

/// The value of a number of the given kind. A fixed point number is stored
/// as an integer of its width.
pub open spec fn spec_number(s: Seq<u8>, e: Endianness, kind: TypeInfoKind) -> SpecParsed<
    ValueView,
> {
    match kind {
        TypeInfoKind::Signed(l) => spec_dlt_sint(s, e, l),
        TypeInfoKind::SignedFixedPoint(w) => spec_dlt_sint(s, e, float_width_to_type_length(w)),
        TypeInfoKind::Unsigned(l) => spec_dlt_uint(s, e, l),
        TypeInfoKind::UnsignedFixedPoint(w) => spec_dlt_uint(s, e, float_width_to_type_length(w)),
        TypeInfoKind::Float(w) => spec_dlt_fint(s, e, w),
        _ => Err(ParseErrorKind::ParsingHickup),
    }
}

fn number<'a>(input: &'a [u8], e: Endianness, kind: TypeInfoKind) -> (r: Result<
    (&'a [u8], Value),
    DltParseError,
>)
    ensures
        match r {
            Ok((rest, v)) => spec_number(input@, e, kind) == Ok::<_, ParseErrorKind>((rest@, v@)),
            Err(err) => spec_number(input@, e, kind) == Err::<(Seq<u8>, ValueView), _>(
                err.kind(),
            ),
        },
{
    match kind {
        TypeInfoKind::Signed(l) => dlt_sint(input, e, l),
        TypeInfoKind::SignedFixedPoint(w) => dlt_sint(input, e, float_width_to_type_length(w)),
        TypeInfoKind::Unsigned(l) => dlt_uint(input, e, l),
        TypeInfoKind::UnsignedFixedPoint(w) => dlt_uint(input, e, float_width_to_type_length(w)),
        TypeInfoKind::Float(w) => dlt_fint(input, e, w),
        _ => Err(DltParseError::ParsingHickup("not a number".to_owned())),
    }
}

/// What follows the type descriptor `info` of a number.
pub open spec fn spec_number_argument(s: Seq<u8>, e: Endianness, info: TypeInfo) -> SpecParsed<
    ArgumentView,
> {
    match spec_variable_name_and_unit(s, e, info.has_variable_info) {
        Err(err) => Err(err),
        Ok((s1, (name, unit))) => match spec_opt_fixed_point(s1, e, info.kind) {
            Err(err) => Err(err),
            Ok((s2, fixed_point)) => match spec_number(s2, e, info.kind) {
                Err(err) => Err(err),
                Ok((s3, value)) => Ok(
                    (s3, ArgumentView { type_info: info, name, unit, fixed_point, value }),
                ),
            },
        },
    }
}

/// What follows the type descriptor `info` of a boolean.
pub open spec fn spec_bool_argument(s: Seq<u8>, e: Endianness, info: TypeInfo) -> SpecParsed<
    ArgumentView,
> {
    match spec_opt_variable_name(s, e, info.has_variable_info) {
        Err(err) => Err(err),
        Ok((s1, name)) => match spec_parse_u8(s1) {
            Err(err) => Err(err),
            Ok((s2, v)) => Ok(
                (
                    s2,
                    ArgumentView {
                        type_info: info,
                        name,
                        unit: None,
                        fixed_point: None,
                        value: ValueView::Bool(v),
                    },
                ),
            ),
        },
    }
}

/// What follows the type descriptor `info` of a string.
pub open spec fn spec_string_argument(s: Seq<u8>, e: Endianness, info: TypeInfo) -> SpecParsed<
    ArgumentView,
> {
    match spec_parse_u16(s, e) {
        Err(err) => Err(err),
        Ok((s1, size)) => match spec_opt_variable_name(s1, e, info.has_variable_info) {
            Err(err) => Err(err),
            Ok((s2, name)) => match spec_zero_terminated(s2, size as nat) {
                Err(err) => Err(err),
                Ok((s3, text)) => Ok(
                    (
                        s3,
                        ArgumentView {
                            type_info: info,
                            name,
                            unit: None,
                            fixed_point: None,
                            value: ValueView::StringVal(text),
                        },
                    ),
                ),
            },
        },
    }
}

/// What follows the type descriptor `info` of a block of raw bytes.
pub open spec fn spec_raw_argument(s: Seq<u8>, e: Endianness, info: TypeInfo) -> SpecParsed<
    ArgumentView,
> {
    match spec_parse_u16(s, e) {
        Err(err) => Err(err),
        Ok((s1, size)) => match spec_opt_variable_name(s1, e, info.has_variable_info) {
            Err(err) => Err(err),
            Ok((s2, name)) => match spec_take(s2, size as nat) {
                Err(err) => Err(err),
                Ok((s3, bytes)) => Ok(
                    (
                        s3,
                        ArgumentView {
                            type_info: info,
                            name,
                            unit: None,
                            fixed_point: None,
                            value: ValueView::Raw(bytes),
                        },
                    ),
                ),
            },
        },
    }
}

/// The argument at the start of `s`.
pub open spec fn spec_dlt_argument(s: Seq<u8>, e: Endianness) -> SpecParsed<ArgumentView> {
    match spec_dlt_type_info(s, e) {
        Err(err) => Err(err),
        Ok((rest, info)) => match info.kind {
            TypeInfoKind::Bool => spec_bool_argument(rest, e, info),
            TypeInfoKind::StringType => spec_string_argument(rest, e, info),
            TypeInfoKind::Raw => spec_raw_argument(rest, e, info),
            _ => spec_number_argument(rest, e, info),
        },
    }
}

fn number_argument<'a>(input: &'a [u8], e: Endianness, info: TypeInfo) -> (r: Result<
    (&'a [u8], Argument),
    DltParseError,
>)
    ensures
        match r {
            Ok((rest, a)) => spec_number_argument(input@, e, info) == Ok::<_, ParseErrorKind>(
                (rest@, a@),
            ),
            Err(err) => spec_number_argument(input@, e, info) == Err::<(Seq<u8>, ArgumentView), _>(
                err.kind(),
            ),
        },
{
    let (s1, (name, unit)) = dlt_variable_name_and_unit(input, e, info.has_variable_info)?;
    let (s2, fixed_point) = opt_fixed_point(s1, e, info.kind)?;
    let (s3, value) = number(s2, e, info.kind)?;
    Ok((s3, Argument { type_info: info, name, unit, fixed_point, value }))
}

fn bool_argument<'a>(input: &'a [u8], e: Endianness, info: TypeInfo) -> (r: Result<
    (&'a [u8], Argument),
    DltParseError,
>)
    ensures
        match r {
            Ok((rest, a)) => spec_bool_argument(input@, e, info) == Ok::<_, ParseErrorKind>(
                (rest@, a@),
            ),
            Err(err) => spec_bool_argument(input@, e, info) == Err::<(Seq<u8>, ArgumentView), _>(
                err.kind(),
            ),
        },
{
    let (s1, name) = opt_variable_name(input, e, info.has_variable_info)?;
    let (s2, v) = parse_u8(s1)?;
    Ok(
        (
            s2,
            Argument { type_info: info, name, unit: None, fixed_point: None, value: Value::Bool(v) },
        ),
    )
}

fn string_argument<'a>(input: &'a [u8], e: Endianness, info: TypeInfo) -> (r: Result<
    (&'a [u8], Argument),
    DltParseError,
>)
    ensures
        match r {
            Ok((rest, a)) => spec_string_argument(input@, e, info) == Ok::<_, ParseErrorKind>(
                (rest@, a@),
            ),
            Err(err) => spec_string_argument(input@, e, info) == Err::<(Seq<u8>, ArgumentView), _>(
                err.kind(),
            ),
        },
{
    let (s1, size) = parse_u16(input, e)?;
    let (s2, name) = opt_variable_name(s1, e, info.has_variable_info)?;
    let (s3, text) = dlt_zero_terminated_string(s2, size as usize)?;
    Ok(
        (
            s3,
            Argument {
                type_info: info,
                name,
                unit: None,
                fixed_point: None,
                value: Value::StringVal(text),
            },
        ),
    )
}

fn raw_argument<'a>(input: &'a [u8], e: Endianness, info: TypeInfo) -> (r: Result<
    (&'a [u8], Argument),
    DltParseError,
>)
    ensures
        match r {
            Ok((rest, a)) => spec_raw_argument(input@, e, info) == Ok::<_, ParseErrorKind>(
                (rest@, a@),
            ),
            Err(err) => spec_raw_argument(input@, e, info) == Err::<(Seq<u8>, ArgumentView), _>(
                err.kind(),
            ),
        },
{
    let (s1, size) = parse_u16(input, e)?;
    let (s2, name) = opt_variable_name(s1, e, info.has_variable_info)?;
    let (s3, bytes) = take(s2, size as usize)?;
    Ok(
        (
            s3,
            Argument {
                type_info: info,
                name,
                unit: None,
                fixed_point: None,
                value: Value::Raw(slice_to_vec(bytes)),
            },
        ),
    )
}

/// Decode one argument of a verbose message.
pub fn dlt_argument<'a>(input: &'a [u8], e: Endianness) -> (r: Result<
    (&'a [u8], Argument),
    DltParseError,
>)
    ensures
        match r {
            Ok((rest, a)) => spec_dlt_argument(input@, e) == Ok::<_, ParseErrorKind>((rest@, a@)),
            Err(err) => spec_dlt_argument(input@, e) == Err::<(Seq<u8>, ArgumentView), _>(
                err.kind(),
            ),
        },
{
    let (rest, info) = dlt_type_info(input, e)?;
    match info.kind {
        TypeInfoKind::Bool => bool_argument(rest, e, info),
        TypeInfoKind::StringType => string_argument(rest, e, info),
        TypeInfoKind::Raw => raw_argument(rest, e, info),
        _ => number_argument(rest, e, info),
    }
}

/// Mathematical value of a list of arguments.
pub open spec fn spec_argument_views(args: Seq<Argument>) -> Seq<ArgumentView> {
    Seq::new(args.len(), |i: int| args[i]@)
}

/// `count` arguments, one after the other.
pub open spec fn spec_arguments(s: Seq<u8>, e: Endianness, count: nat) -> SpecParsed<
    Seq<ArgumentView>,
>
    decreases count,
{
    if count == 0 {
        Ok((s, Seq::<ArgumentView>::empty()))
    } else {
        match spec_dlt_argument(s, e) {
            Err(err) => Err(err),
            Ok((s1, first)) => match spec_arguments(s1, e, (count - 1) as nat) {
                Err(err) => Err(err),
                Ok((s2, others)) => Ok((s2, seq![first] + others)),
            },
        }
    }
}

/// The outcome `tail`, with `done` put in front of its arguments.
pub open spec fn spec_after(done: Seq<ArgumentView>, tail: SpecParsed<Seq<ArgumentView>>) -> SpecParsed<
    Seq<ArgumentView>,
> {
    match tail {
        Err(err) => Err(err),
        Ok((rest, others)) => Ok((rest, done + others)),
    }
}

/// Decode `count` arguments.
pub fn dlt_arguments<'a>(input: &'a [u8], e: Endianness, count: u8) -> (r: Result<
    (&'a [u8], Vec<Argument>),
    DltParseError,
>)
    ensures
        match r {
            Ok((rest, args)) => spec_arguments(input@, e, count as nat) == Ok::<_, ParseErrorKind>(
                (rest@, spec_argument_views(args@)),
            ),
            Err(err) => spec_arguments(input@, e, count as nat) == Err::<
                (Seq<u8>, Seq<ArgumentView>),
                _,
            >(err.kind()),
        },
{
    let mut args: Vec<Argument> = Vec::new();
    let mut rest: &[u8] = input;
    let mut i: u8 = 0;
    assert(spec_argument_views(args@) =~= Seq::<ArgumentView>::empty());
    assert(spec_after(Seq::<ArgumentView>::empty(), spec_arguments(input@, e, count as nat))
        == spec_arguments(input@, e, count as nat)) by {
        match spec_arguments(input@, e, count as nat) {
            Ok((r, others)) => {
                assert(Seq::<ArgumentView>::empty() + others =~= others);
            },
            Err(_) => {},
        }
    }
    while i < count
        invariant
            i <= count,
            spec_arguments(input@, e, count as nat) == spec_after(
                spec_argument_views(args@),
                spec_arguments(rest@, e, (count - i) as nat),
            ),
        decreases count - i,
    {
        let ghost done = spec_argument_views(args@);
        let ghost before = rest@;
        match dlt_argument(rest, e) {
            Err(err) => {
                return Err(err);
            },
            Ok((next, arg)) => {
                proof {
                    let tail = spec_arguments(next@, e, (count - i - 1) as nat);
                    match tail {
                        Ok((r, others)) => {
                            assert(done + (seq![arg@] + others) =~= done.push(arg@) + others);
                        },
                        Err(_) => {},
                    }
                    assert(spec_argument_views(args@.push(arg)) =~= done.push(arg@));
                }
                args.push(arg);
                rest = next;
                i += 1;
            },
        }
    }
    proof {
        assert(spec_argument_views(args@) + Seq::<ArgumentView>::empty() =~= spec_argument_views(
            args@,
        ));
    }
    Ok((rest, args))
}

} // verus!
