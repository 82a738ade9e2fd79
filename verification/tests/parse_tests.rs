use bytes::BytesMut;
use dlt_core::argument::{Argument, FixedPoint, FixedPointValue, Value};
use dlt_core::dlt::{
    Endianness, FloatWidth, LogLevel, MessageType, StringCoding, TypeInfo, TypeInfoKind,
    TypeLength,
};
use dlt_core::message::{ExtendedHeaderConfig, Message, MessageConfig, PayloadContent};
use dlt_core::parse::{
    dlt_message, dlt_zero_terminated_string, forward_to_next_storage_header, parse_ecu_id,
    DltParseError, ParsedMessage, DLT_PATTERN,
};
use dlt_core::verbose::{dlt_argument, dlt_type_info};

fn dlt_message_with_storage_header() -> Vec<u8> {
    vec![
        0x44, 0x4C, 0x54, 0x01, 0x56, 0xA2, 0x91, 0x5C, 0x9C, 0x91, 0x0B, 0x00, 0x45, 0x43, 0x55,
        0x31, 0x3D, 0x0A, 0x00, 0x24, 0x45, 0x43, 0x55, 0x31, 0x00, 0x00, 0x01, 0x7F, 0x00, 0x5B,
        0xF7, 0x16, 0x41, 0x01, 0x41, 0x50, 0x50, 0x00, 0x43, 0x54, 0x58, 0x00, 0x00, 0x82, 0x00,
        0x00, 0x04, 0x00, 0x66, 0x6F, 0x6F, 0x00,
    ]
}

fn concatenate_arrays<T: Clone>(x: &[T], y: &[T]) -> Vec<T> {
    x.iter().chain(y).cloned().collect()
}

#[test]
fn test_skip_to_next_storage_header_later_in_input() {
    let input_1: Vec<u8> = concatenate_arrays(&[0xa, 0xb, 0xc], &DLT_PATTERN);
    assert_eq!(
        Some((3, &DLT_PATTERN[..])),
        forward_to_next_storage_header(&input_1)
    );
    let input_2: Vec<u8> = concatenate_arrays(&[0xa, 0xb, 0xc, 0xd], &DLT_PATTERN);
    assert_eq!(
        Some((4, &DLT_PATTERN[..])),
        forward_to_next_storage_header(&input_2)
    );
}

#[test]
fn test_skip_to_next_storage_header_immediately_in_input() {
    let input_1 = &DLT_PATTERN;
    let res = forward_to_next_storage_header(input_1);
    assert_eq!(Some((0, &DLT_PATTERN[..])), res);
}

#[test]
fn test_skip_to_next_storage_header_no_more_pattern_match() {
    let input_1 = &[0x1, 0x2, 0x3, 0x4, 0x1, 0x2, 0x3, 0x4, 0x1, 0x2, 0x3];
    let res = forward_to_next_storage_header(input_1);
    assert_eq!(None, res);
}

#[test]
fn test_dlt_roundtrip_msg() {
    let raw1 = dlt_message_with_storage_header();
    match dlt_message(&raw1[..], None, true) {
        Ok((_rest, ParsedMessage::Item(msg))) => {
            let msg_bytes = msg.as_bytes();
            assert_eq!(raw1, msg_bytes);
        }
        _ => panic!("could not parse message"),
    }
}

fn bool_msg() -> Vec<u8> {
    vec![
        // --------------- storage header
        /* DLT + 0x01 */ 0x44, 0x4C, 0x54, 0x01,
        /* timestamp sec */ 0x2B, 0x2C, 0xC9, 0x4D,
        /* timestamp us */ 0x7A, 0xE8, 0x01, 0x00,
        /* ecu id "ECU" */ 0x45, 0x43, 0x55, 0x00,
        // --------------- header
        /* header-type 0b0010 0001 */ 0x21,
        /* message counter */ 0x0A,
        /* length */ 0x00, 0x13,
        // --------------- extended header
        0x41, // MSIN 0b0100 0001 => verbose, log, info
        0x01, // arg count
        0x4C, 0x4F, 0x47, 0x00, // app id LOG
        0x54, 0x45, 0x53, 0x32, // context id TES2
        // --------------- payload
        /* type info 0b0001 0000 => type bool */ 0x10, 0x00, 0x00, 0x00,
        0x6F,
    ]
}

#[test]
fn test_dlt_bool_msg() {
    let raw1: Vec<u8> = bool_msg();
    match dlt_message(&raw1[..], None, true) {
        Ok((_rest, ParsedMessage::Item(msg))) => {
            let msg_bytes = msg.as_bytes();
            assert_eq!(raw1, msg_bytes);
        }
        _ => panic!("could not parse message"),
    }
}

#[test]
fn test_dlt_network_trace_msg() {
    let raw1: Vec<u8> = vec![
        // --------------- storage header
        0x44, 0x4c, 0x54, 0x01, 0xbc, 0xa6, 0xd4, 0x65, 0x27, 0x13, 0x07, 0x00, 0x49, 0x44, 0x43,
        0x45, // --------------- header
        0x3d, 0x40, 0x00, 0x48, 0x49, 0x44, 0x43, 0x45, // ecu-id
        0x00, 0x00, 0x02, 0x4f, // session-id
        0x01, 0xba, 0x71, 0xb6, // timestamp
        // --------------- extended header
        0x15, // MSIN 0b0001 0101 => IPC/NW-Trace
        0x02, // arg count
        0x4e, 0x32, 0x53, 0x49, // app-id
        0x54, 0x43, 0x00, 0x00, // ctx-id
        /* === arg 1 (some/ip info) === */
        0x00, 0x04, 0x00, 0x00, 0x0a, 0x00, // type rawd + len(16bit)
        0x00, 0x00, 0x00, 0x00, // ipv4
        0x00, 0x00, // port
        0xff, // protocol
        0x01, // direction
        0x00, 0x01, // instance-id (1|2|4 byte)
        /* === arg 2 (some/ip message) === */
        0x00, 0x04, 0x00, 0x00, 0x18, 0x00, // type rawd + len(16bit)
        0xf9, 0x61, 0x85, 0x1d, 0x00, 0x00, 0x00, 0x10, 0x00, 0x00, 0x28, 0x15, 0x01, 0x01, 0x02,
        0x00, 0x01, 0xfe, 0xfc, 0xff, 0xff, 0xff, 0xff, 0xff,
    ];
    match dlt_message(&raw1[..], None, true) {
        Ok((_rest, ParsedMessage::Item(msg))) => {
            let ext_hdr = msg.extended_header.as_ref().unwrap();
            assert!(ext_hdr.verbose);
            assert_eq!(2, ext_hdr.argument_count);
            if let PayloadContent::NetworkTrace(slices) = &msg.payload {
                assert_eq!(2, slices.len());
                let slice = vec![0x00, 0x00, 0x00, 0x00, 0x00, 0x00, 0xff, 0x01, 0x00, 0x01];
                assert_eq!(slice, slices[0]);
                let slice = vec![
                    0xf9, 0x61, 0x85, 0x1d, 0x00, 0x00, 0x00, 0x10, 0x00, 0x00, 0x28, 0x15, 0x01,
                    0x01, 0x02, 0x00, 0x01, 0xfe, 0xfc, 0xff, 0xff, 0xff, 0xff, 0xff,
                ];
                assert_eq!(slice, slices[1]);
            } else {
                panic!("unexpected payload type");
            }
            let msg_bytes = msg.as_bytes();
            assert_eq!(raw1, msg_bytes);
        }
        _ => panic!("could not parse message"),
    }
}

fn raw3() -> Vec<u8> {
    vec![
        // storage header
        0x44, 0x4C, 0x54, 0x01, 0x90, 0xB8, 0xB3, 0x5D, 0x00, 0x00, 0x00, 0x00, 0x45, 0x43, 0x55,
        0x00, /* header-type 0b0101 0011 */ 0x53, /* message counter */ 0x44,
        /* length = 23 */ 0x00, 0x17, /* timestamp */ 0x53, 0x44, 0x53, 0x00,
        /* extended header */ 0x02, 0x00, 0x00, 0x1D, 0x00, 0x5B, 0x50, 0x6F, 0x6C, 0x6C,
        // payload
        0x10, 0x00, 0x00, 0x00, 0x6F,
    ]
}

#[test]
fn test_dlt_message_parsing() {
    let mut raw1: Vec<u8> = vec![
        0x44, 0x4C, 0x54, 0x01, // storage header
        0x56, 0xA2, 0x91, 0x5C, 0x9C, 0x91, 0x0B, 0x00, 0x45, 0x43, 0x55, 0x31, // header
        0x3D, // header type 0b11 1101
        0x40, 0x00, 0xA2, 0x45, 0x43, 0x55, 0x31, // ecu id
        0x00, 0x00, 0x01, 0x7F, // session id
        0x00, 0x5B, 0xF7, 0x16, // timestamp
        // extended header
        0x51, // MSIN 0b101 0001 => verbose, MST log,
        0x06, // arg count
        0x56, 0x53, 0x6F, 0x6D, // app id VSom
        0x76, 0x73, 0x73, 0x64, // context id vssd
        // arguments
        0x00, 0x82, 0x00, 0x00, // type info 0b1000001000000000
        0x3A, 0x00, 0x5B, 0x33, 0x38, 0x33, 0x3A, 0x20, 0x53, 0x65, 0x72, 0x76, 0x69, 0x63, 0x65,
        0x44, 0x69, 0x73, 0x63, 0x6F, 0x76, 0x65, 0x72, 0x79, 0x55, 0x64, 0x70, 0x45, 0x6E, 0x64,
        0x70, 0x6F, 0x69, 0x6E, 0x74, 0x28, 0x31, 0x36, 0x30, 0x2E, 0x34, 0x38, 0x2E, 0x31, 0x39,
        0x39, 0x2E, 0x31, 0x30, 0x32, 0x3A, 0x35, 0x30, 0x31, 0x35, 0x32, 0x29, 0x5D, 0x20, 0x00,
        0x00, 0x82, 0x00, 0x00, // type info 0b1000001000000000
        0x0F, 0x00, // length
        0x50, 0x72, 0x6F, 0x63, 0x65, 0x73, 0x73, 0x4D, 0x65, 0x73, 0x73, 0x61, 0x67, 0x65,
        0x00, // "ProcessMessage"
        0x00, 0x82, 0x00, 0x00, // type info 0b1000001000000000
        0x02, 0x00, // length
        0x3A, 0x00, // ":"
        0x23, 0x00, 0x00, 0x00, // type info 0b10000000001000010
        0x0D, 0x01, 0x00, 0x00, 0x00, 0x82, 0x00, 0x00, 0x03, 0x00, 0x3A, 0x20, 0x00, 0x00, 0x82,
        0x00, 0x00, 0x14, 0x00, 0x31, 0x36, 0x30, 0x2E, 0x34, 0x38, 0x2E, 0x31, 0x39, 0x39, 0x2E,
        0x31, 0x36, 0x2C, 0x33, 0x30, 0x35, 0x30, 0x31, 0x00,
    ];
    let raw2: Vec<u8> = vec![
        0x44, 0x4C, 0x54, 0x01, 0x56, 0xA2, 0x91, 0x5C, 0x9C, 0x91, 0x0B, 0x00, 0x45, 0x43, 0x55,
        0x31, 0x3D, 0x41, 0x00, 0xA9, 0x45, 0x43, 0x55, 0x31, 0x00, 0x00, 0x01, 0x7F, 0x00, 0x5B,
        0xF7, 0x16, 0x51, 0x09, 0x56, 0x53, 0x6F, 0x6D, 0x76, 0x73, 0x73, 0x64, 0x00, 0x82, 0x00,
        0x00, 0x3A, 0x00, 0x5B, 0x33, 0x38, 0x33, 0x3A, 0x20, 0x53, 0x65, 0x72, 0x76, 0x69, 0x63,
        0x65, 0x44, 0x69, 0x73, 0x63, 0x6F, 0x76, 0x65, 0x72, 0x79, 0x55, 0x64, 0x70, 0x45, 0x6E,
        0x64, 0x70, 0x6F, 0x69, 0x6E, 0x74, 0x28, 0x31, 0x36, 0x30, 0x2E, 0x34, 0x38, 0x2E, 0x31,
        0x39, 0x39, 0x2E, 0x31, 0x30, 0x32, 0x3A, 0x35, 0x30, 0x31, 0x35, 0x32, 0x29, 0x5D, 0x20,
        0x00, 0x00, 0x82, 0x00, 0x00, 0x0F, 0x00, 0x50, 0x72, 0x6F, 0x63, 0x65, 0x73, 0x73, 0x4D,
        0x65, 0x73, 0x73, 0x61, 0x67, 0x65, 0x00, 0x00, 0x82, 0x00, 0x00, 0x02, 0x00, 0x3A, 0x00,
        0x23, 0x00, 0x00, 0x00, 0x24, 0x01, 0x00, 0x00, 0x00, 0x82, 0x00, 0x00, 0x06, 0x00, 0x3A,
        0x20, 0x28, 0x30, 0x78, 0x00, 0x42, 0x00, 0x01, 0x00, 0x36, 0x15, 0x00, 0x82, 0x00, 0x00,
        0x04, 0x00, 0x2C, 0x30, 0x78, 0x00, 0x42, 0x00, 0x01, 0x00, 0x01, 0x00, 0x00, 0x82, 0x00,
        0x00, 0x02, 0x00, 0x29, 0x00,
    ];
    let raw3: Vec<u8> = raw3();
    raw1.extend_from_slice(&raw2);
    let result_1_2 = match dlt_message(&raw1, None, true) {
        Ok((rest1, _msg)) => dlt_message(rest1, None, true),
        Err(e) => panic!("Parse should succeed: {}", e.message()),
    };
    let res2: Result<(&[u8], ParsedMessage), DltParseError> = dlt_message(&raw2, None, true);
    assert!(res2.is_ok());
    assert_eq!(result_1_2, res2);
    let res3: Result<(&[u8], ParsedMessage), DltParseError> = dlt_message(&raw3, None, true);
    assert!(res3.is_ok());

    for end in 1..raw3.len() - 1 {
        let res3_incomplete = dlt_message(&raw3[..end], None, true);

        assert!(
            matches!(res3_incomplete, Err(DltParseError::IncompleteParse { .. })),
            "Ending before {} did not yield Incomplete",
            end
        );
    }
}

#[test]
fn test_ecu_id_parser() {
    let expected: Result<(&[u8], String), DltParseError> = Ok((&[], "ecu1".to_string()));
    assert_eq!(expected, parse_ecu_id(b"ecu1"));
    assert_eq!(
        Err(DltParseError::IncompleteParse { needed: Some(1) }),
        parse_ecu_id(b"ecu")
    );
}

#[test]
fn test_parse_example_type_info() {
    let type_info_bytes = vec![0x42, 0x00, 0x01, 0x00];
    let res: TypeInfo = dlt_type_info(&type_info_bytes, Endianness::Little)
        .unwrap()
        .1;
    let type_info_as_bytes = res.as_bytes(Endianness::Little);
    assert_eq!(type_info_bytes, type_info_as_bytes);
}

#[test]
fn test_parse_msg() {
    let payload = PayloadContent::Verbose(vec![Argument {
        type_info: TypeInfo {
            kind: TypeInfoKind::Unsigned(TypeLength::BitLength32),
            coding: StringCoding::UTF8,
            has_variable_info: true,
            has_trace_info: false,
        },
        name: Some("UcbfX".to_string()),
        unit: Some("seconds".to_string()),
        fixed_point: None,
        value: Value::U32(2_063_359_909),
    }]);
    let msg_conf = MessageConfig {
        version: 0,
        endianness: Endianness::Big,
        counter: 21,
        ecu_id: Some("AA".to_string()),
        session_id: None,
        timestamp: None,
        payload,
        extended_header_info: Some(ExtendedHeaderConfig {
            message_type: MessageType::Log(LogLevel::Warn),
            app_id: "o".to_string(),
            context_id: "hK".to_string(),
        }),
    };
    let msg = Message::new(msg_conf, None);
    let mut msg_bytes = msg.as_bytes();
    println!("--> test_parse_msg: msg_bytes: {:02X?}", msg_bytes);

    msg_bytes.extend(b"----");
    let res = dlt_message(&msg_bytes, None, false);
    let expected: Result<(&[u8], ParsedMessage), DltParseError> =
        Ok((b"----", ParsedMessage::Item(msg)));
    assert_eq!(expected, res);
}

fn check_argument_roundtrip(argument: Argument, suffix: &[u8]) {
    let mut argument_bytes = argument.as_bytes(Endianness::Big);
    println!("argument bytes: {:02X?}", argument_bytes);
    argument_bytes.extend(suffix);
    let res: Result<(&[u8], Argument), DltParseError> =
        dlt_argument(&argument_bytes, Endianness::Big);
    let expected: Result<(&[u8], Argument), DltParseError> = Ok((suffix, argument));
    assert_eq!(expected, res);
}

#[test]
fn test_parse_offending_argument() {
    let type_info = TypeInfo {
        kind: TypeInfoKind::SignedFixedPoint(FloatWidth::Width64),
        coding: StringCoding::UTF8,
        has_variable_info: true,
        has_trace_info: false,
    };
    let argument = Argument {
        type_info,
        name: Some("a".to_string()),
        unit: Some("a".to_string()),
        fixed_point: Some(FixedPoint {
            quantization: 1.0f32.to_bits(),
            offset: FixedPointValue::I64(1),
        }),
        value: Value::I64(-1_246_093_129_526_187_791),
    };
    check_argument_roundtrip(argument, b"----");
}

#[test]
fn test2_parse_offending_argument() {
    let argument = Argument {
        type_info: TypeInfo {
            kind: TypeInfoKind::SignedFixedPoint(FloatWidth::Width32),
            coding: StringCoding::UTF8,
            has_variable_info: true,
            has_trace_info: false,
        },
        name: Some("a".to_string()),
        unit: Some("A".to_string()),
        fixed_point: Some(FixedPoint {
            quantization: 0.1f32.to_bits(),
            offset: FixedPointValue::I32(0),
        }),
        value: Value::I32(1_319_631_541),
    };
    check_argument_roundtrip(argument, b"----");
}

#[test]
fn test_parse_bool_argument() {
    {
        let type_info = TypeInfo {
            kind: TypeInfoKind::Bool,
            coding: StringCoding::UTF8,
            has_variable_info: false,
            has_trace_info: false,
        };
        let argument = Argument {
            type_info,
            name: None,
            unit: None,
            fixed_point: None,
            value: Value::Bool(0x1),
        };
        println!("argument: {:?}", argument);
        check_argument_roundtrip(argument, b"4321");
    }
    // now with variable info
    {
        let type_info = TypeInfo {
            kind: TypeInfoKind::Bool,
            coding: StringCoding::UTF8,
            has_variable_info: true,
            has_trace_info: false,
        };
        let argument = Argument {
            type_info,
            name: Some("abc".to_string()),
            unit: None,
            fixed_point: None,
            value: Value::Bool(0x1),
        };
        println!("argument: {:?}", argument);
        check_argument_roundtrip(argument, b"----");
    }
}

#[test]
fn test_parse_unsigned_argument() {
    {
        let type_info = TypeInfo {
            kind: TypeInfoKind::Unsigned(TypeLength::BitLength32),
            coding: StringCoding::UTF8,
            has_variable_info: false,
            has_trace_info: false,
        };
        let argument = Argument {
            type_info,
            name: None,
            unit: None,
            fixed_point: None,
            value: Value::U32(0x123),
        };
        check_argument_roundtrip(argument, b"----");
    }
    // now with variable info
    {
        let type_info = TypeInfo {
            kind: TypeInfoKind::Unsigned(TypeLength::BitLength32),
            coding: StringCoding::UTF8,
            has_variable_info: true,
            has_trace_info: false,
        };
        let argument = Argument {
            type_info,
            name: Some("speed".to_string()),
            unit: Some("mph".to_string()),
            fixed_point: None,
            value: Value::U32(0x123),
        };
        check_argument_roundtrip(argument, b"----");
    }
}

#[test]
fn test_problem_arg() {
    let argument = Argument {
        type_info: TypeInfo {
            kind: TypeInfoKind::Unsigned(TypeLength::BitLength32),
            coding: StringCoding::UTF8,
            has_variable_info: true,
            has_trace_info: false,
        },
        name: Some("UcbfX".to_string()),
        unit: Some("seconds".to_string()),
        fixed_point: None,
        value: Value::U32(2_063_359_909),
    };
    check_argument_roundtrip(argument, b"----");
}

#[test]
fn test_parse_signed_argument() {
    let type_info = TypeInfo {
        kind: TypeInfoKind::Signed(TypeLength::BitLength16),
        coding: StringCoding::UTF8,
        has_variable_info: false,
        has_trace_info: false,
    };
    let argument = Argument {
        type_info,
        name: None,
        unit: None,
        fixed_point: None,
        value: Value::I16(-23),
    };
    check_argument_roundtrip(argument, b"----");
    // now with variable info
    let type_info = TypeInfo {
        kind: TypeInfoKind::Signed(TypeLength::BitLength32),
        coding: StringCoding::UTF8,
        has_variable_info: true,
        has_trace_info: false,
    };
    let argument = Argument {
        type_info,
        name: Some("temperature".to_string()),
        unit: Some("celcius".to_string()),
        fixed_point: None,
        value: Value::I32(-23),
    };
    check_argument_roundtrip(argument, b"----");
}

#[test]
fn test_parse_float_argument() {
    let type_info = TypeInfo {
        kind: TypeInfoKind::Float(FloatWidth::Width32),
        coding: StringCoding::UTF8,
        has_variable_info: false,
        has_trace_info: false,
    };
    let argument = Argument {
        type_info,
        name: None,
        unit: None,
        fixed_point: None,
        value: Value::F32(123.98f32.to_bits()),
    };
    check_argument_roundtrip(argument, b"----");
    // now with variable info
    let type_info = TypeInfo {
        kind: TypeInfoKind::Float(FloatWidth::Width64),
        coding: StringCoding::UTF8,
        has_variable_info: true,
        has_trace_info: false,
    };
    let argument = Argument {
        type_info,
        name: Some("temperature".to_string()),
        unit: Some("celcius".to_string()),
        fixed_point: None,
        value: Value::F64(28.3f64.to_bits()),
    };
    check_argument_roundtrip(argument, b"----");
}

#[test]
fn test_parse_raw_argument() {
    let type_info = TypeInfo {
        kind: TypeInfoKind::Raw,
        coding: StringCoding::UTF8,
        has_variable_info: false,
        has_trace_info: false,
    };
    let argument = Argument {
        type_info,
        name: None,
        unit: None,
        fixed_point: None,
        value: Value::Raw(vec![0xD, 0xE, 0xA, 0xD]),
    };
    check_argument_roundtrip(argument, b"----");
    // now with variable info
    let type_info = TypeInfo {
        kind: TypeInfoKind::Raw,
        coding: StringCoding::UTF8,
        has_variable_info: true,
        has_trace_info: false,
    };
    let argument = Argument {
        type_info,
        name: Some("payload".to_string()),
        unit: None,
        fixed_point: None,
        value: Value::Raw(vec![0xD, 0xE, 0xA, 0xD]),
    };
    check_argument_roundtrip(argument, b"----");
}

#[test]
fn test_parse_string_argument() {
    let type_info = TypeInfo {
        kind: TypeInfoKind::StringType,
        coding: StringCoding::UTF8,
        has_variable_info: false,
        has_trace_info: false,
    };
    let argument = Argument {
        type_info,
        name: None,
        unit: None,
        fixed_point: None,
        value: Value::StringVal("foo".to_string()),
    };
    check_argument_roundtrip(argument, b"----");
}

#[test]
fn test_parse_fixed_point_argument() {
    let type_info = TypeInfo {
        kind: TypeInfoKind::SignedFixedPoint(FloatWidth::Width32),
        coding: StringCoding::UTF8,
        has_variable_info: true,
        has_trace_info: false,
    };
    let argument = Argument {
        type_info,
        name: Some("speed".to_string()),
        unit: Some("mph".to_string()),
        value: Value::I32(-44),
        fixed_point: Some(FixedPoint {
            quantization: 1.5f32.to_bits(),
            offset: FixedPointValue::I32(-200),
        }),
    };
    check_argument_roundtrip(argument, b"----");
}

#[test]
fn test_dlt_zero_terminated_string_exact() {
    let mut buf = BytesMut::with_capacity(4);
    buf.extend_from_slice(b"id42");
    let res = dlt_zero_terminated_string(&buf, 4);
    let expected: Result<(&[u8], String), DltParseError> = Ok((&[], "id42".to_string()));
    assert_eq!(expected, res);
}

#[test]
fn test_dlt_zero_terminated_string_more_data() {
    let mut buf = BytesMut::with_capacity(6);
    buf.extend_from_slice(b"id42++");
    let res = dlt_zero_terminated_string(&buf, 4);
    let expected: Result<(&[u8], String), DltParseError> = Ok((b"++", "id42".to_string()));
    assert_eq!(expected, res);
}

#[test]
fn test_dlt_zero_terminated_string_less_data() {
    let mut buf = BytesMut::with_capacity(4);
    buf.extend_from_slice(b"id\0");
    assert!(matches!(
        dlt_zero_terminated_string(&buf, 4),
        Err(DltParseError::IncompleteParse { .. })
    ));
    buf.clear();
    buf.extend_from_slice(b"id\0\0");
    let expected: Result<(&[u8], String), DltParseError> = Ok((b"", "id".to_string()));
    assert_eq!(expected, dlt_zero_terminated_string(&buf, 4));
}

#[test]
fn test_dlt_zero_terminated_string_early_terminated() {
    let mut buf = BytesMut::with_capacity(4);
    buf.extend_from_slice(b"id4\0somethingelse");
    let res = dlt_zero_terminated_string(&buf, 4);
    let expected: Result<(&[u8], String), DltParseError> =
        Ok((b"somethingelse", "id4".to_string()));
    assert_eq!(expected, res);
}

#[test]
fn test_dlt_zero_terminated_string_non_utf8() {
    let mut buf = BytesMut::with_capacity(4);
    let broken = vec![0x41, 0, 146, 150];
    buf.extend_from_slice(&broken);
    let res = dlt_zero_terminated_string(&buf, 4);
    let expected: Result<(&[u8], String), DltParseError> = Ok((b"", "A".to_string()));
    assert_eq!(expected, res);
}
