use dlt_core::argument::{Argument, FixedPoint, FixedPointValue, Value};
use dlt_core::dlt::{
    u8_to_log_level, ApplicationTraceType, ControlType, Endianness, FloatWidth, LogLevel,
    MessageType, NetworkTraceType, StringCoding, TypeInfo, TypeInfoKind, TypeLength,
};
use dlt_core::filtering::{filtered_out, DltFilterConfig, ProcessedDltFilterConfig};
use dlt_core::header::{
    calculate_all_headers_length, DltTimeStamp, ExtendedHeader, StandardHeader, StorageHeader,
};
use dlt_core::message::{ExtendedHeaderConfig, Message, MessageConfig, PayloadContent};
use dlt_core::parse::{
    dlt_consume_msg, dlt_extended_header, dlt_message, dlt_payload, dlt_standard_header,
    dlt_storage_header,
    dlt_zero_terminated_string, forward_to_next_storage_header, skip_storage_header,
    skip_till_after_next_storage_header, validated_payload_length, DltParseError, ParsedMessage,
};
use dlt_core::service_id::service_id_lookup;
use dlt_core::text::lossy_text;
use dlt_core::verbose::{dlt_argument, dlt_arguments, dlt_type_info};
use dlt_core::wire::{put_u128, put_u16, put_u32, put_u64, read_u128_at, read_u64_at};

fn verbose_bool() -> Vec<u8> {
    vec![
        0x44, 0x4C, 0x54, 0x01, 0x2B, 0x2C, 0xC9, 0x4D, 0x7A, 0xE8, 0x01, 0x00, 0x45, 0x43, 0x55,
        0x00, 0x21, 0x0A, 0x00, 0x13, 0x41, 0x01, 0x4C, 0x4F, 0x47, 0x00, 0x54, 0x45, 0x53, 0x32,
        0x10, 0x00, 0x00, 0x00, 0x6F,
    ]
}

fn control_request() -> Vec<u8> {
    vec![
        0x44, 0x4C, 0x54, 0x01, 0x26, 0x2C, 0xC9, 0x4D, 0xD8, 0xA2, 0x0C, 0x00, 0x45, 0x43, 0x55,
        0x00, 0x35, 0x00, 0x00, 0x1F, 0x45, 0x43, 0x55, 0x00, 0x3F, 0x88, 0x62, 0x3A, 0x16, 0x01,
        0x41, 0x50, 0x50, 0x00, 0x43, 0x4F, 0x4E, 0x00, 0x11, 0x00, 0x00, 0x00, 0x04, 0x72, 0x65,
        0x6D, 0x6F,
    ]
}

fn item(input: &[u8], with_storage_header: bool) -> (Vec<u8>, Message) {
    match dlt_message(input, None, with_storage_header) {
        Ok((rest, ParsedMessage::Item(message))) => (rest.to_vec(), message),
        other => panic!("no message: {:?}", other),
    }
}

#[test]
fn scenario_verbose_bool() {
    let input = verbose_bool();
    let (rest, message) = item(&input, true);
    assert!(rest.is_empty());
    assert_eq!(
        Some(StorageHeader {
            timestamp: DltTimeStamp {
                seconds: 0x4DC92C2B,
                microseconds: 0x0001E87A,
            },
            ecu_id: "ECU".to_string(),
        }),
        message.storage_header
    );
    assert_eq!(
        StandardHeader {
            version: 1,
            endianness: Endianness::Little,
            has_extended_header: true,
            message_counter: 10,
            ecu_id: None,
            session_id: None,
            timestamp: None,
            payload_length: 5,
        },
        message.header
    );
    assert_eq!(0x0013, message.header.overall_length());
    assert_eq!(
        Some(ExtendedHeader {
            verbose: true,
            argument_count: 1,
            message_type: MessageType::Log(LogLevel::Info),
            application_id: "LOG".to_string(),
            context_id: "TES2".to_string(),
        }),
        message.extended_header
    );
    assert_eq!(
        PayloadContent::Verbose(vec![Argument {
            type_info: TypeInfo {
                kind: TypeInfoKind::Bool,
                coding: StringCoding::ASCII,
                has_variable_info: false,
                has_trace_info: false,
            },
            name: None,
            unit: None,
            fixed_point: None,
            value: Value::Bool(0x6F),
        }]),
        message.payload
    );
    assert_eq!(input, message.as_bytes());
}

#[test]
fn scenario_control_request() {
    let input = control_request();
    let (rest, message) = item(&input, true);
    assert!(rest.is_empty());
    let header = message.extended_header.as_ref().expect("extended header");
    assert!(!header.verbose);
    assert_eq!(MessageType::Control(ControlType::Request), header.message_type);
    assert_eq!("APP", header.application_id);
    assert_eq!("CON", header.context_id);
    assert_eq!(Some("ECU".to_string()), message.header.ecu_id);
    assert_eq!(Some(0x3F88623A), message.header.timestamp);
    assert_eq!(9, message.header.payload_length);
    match &message.payload {
        PayloadContent::ControlMsg(kind, body) => {
            assert_eq!(0x11, kind.value());
            assert_eq!(0x00, body[0]);
            assert_eq!(&[0x00, 0x00, 0x00, 0x04, 0x72, 0x65, 0x6D, 0x6F], &body[..]);
        }
        other => panic!("no control message: {:?}", other),
    }
    assert_eq!(
        Some(("set_default_log_level", "Sets the LogLevel for wildcards")),
        service_id_lookup(0x11)
    );
    assert_eq!(input, message.as_bytes());

    // the same request with nothing but the new level behind the id
    let short: Vec<u8> = vec![
        0x21, 0x00, 0x00, 0x10, 0x16, 0x01, 0x41, 0x50, 0x50, 0x00, 0x43, 0x4F, 0x4E, 0x00, 0x11,
        0x00,
    ];
    let (rest, message) = item(&short, false);
    assert!(rest.is_empty());
    assert_eq!(
        PayloadContent::ControlMsg(ControlType::Unknown(0x11), vec![0x00]),
        message.payload
    );
}

#[test]
fn scenario_incomplete_suffix() {
    let input = verbose_bool();
    for end in 1..input.len() {
        assert!(
            matches!(
                dlt_message(&input[..end], None, true),
                Err(DltParseError::IncompleteParse { .. })
            ),
            "ending before {} is not incomplete",
            end
        );
    }
    // without storage header
    for end in 17..input.len() {
        assert!(
            matches!(
                dlt_message(&input[16..end], None, false),
                Err(DltParseError::IncompleteParse { .. })
            ),
            "ending before {} is not incomplete",
            end
        );
    }
    assert_eq!(
        Err(DltParseError::IncompleteParse { needed: Some(3) }),
        dlt_message(&input[16..32], None, false)
    );
    // the length field tells how much is missing, also inside the headers
    assert_eq!(
        Err(DltParseError::IncompleteParse { needed: Some(14) }),
        dlt_message(&input[16..21], None, false)
    );
    assert_eq!(
        Err(DltParseError::IncompleteParse { needed: Some(1) }),
        dlt_message(&input[16..19], None, false)
    );
    assert_eq!(
        Err(DltParseError::IncompleteParse { needed: None }),
        dlt_message(&input[..15], None, true)
    );
}

fn warn_message() -> Message {
    Message::new(
        MessageConfig {
            version: 1,
            counter: 7,
            endianness: Endianness::Little,
            ecu_id: Some("ECU1".to_string()),
            session_id: Some(3),
            timestamp: None,
            payload: PayloadContent::Verbose(vec![Argument {
                type_info: TypeInfo {
                    kind: TypeInfoKind::StringType,
                    coding: StringCoding::UTF8,
                    has_variable_info: false,
                    has_trace_info: false,
                },
                name: None,
                unit: None,
                fixed_point: None,
                value: Value::StringVal("12345678".to_string()),
            }]),
            extended_header_info: Some(ExtendedHeaderConfig {
                message_type: MessageType::Log(LogLevel::Warn),
                app_id: "APP".to_string(),
                context_id: "CTX".to_string(),
            }),
        },
        None,
    )
}

fn filter(min_log_level: Option<u8>) -> DltFilterConfig {
    DltFilterConfig {
        min_log_level,
        app_ids: None,
        ecu_ids: None,
        context_ids: None,
        app_id_count: 0,
        context_id_count: 0,
    }
}

#[test]
fn scenario_filtered_out() {
    let message = warn_message();
    assert_eq!(15, message.header.payload_length);
    let mut bytes = message.as_bytes();
    bytes.extend(b"next");
    let config = ProcessedDltFilterConfig::from_config(&filter(Some(2)));
    assert_eq!(Some(LogLevel::Error), config.min_log_level);
    assert_eq!(
        Ok((&b"next"[..], ParsedMessage::FilteredOut(15))),
        dlt_message(&bytes, Some(&config), false)
    );
    // a filter that lets warnings through
    let config = ProcessedDltFilterConfig::from_config(&filter(Some(3)));
    assert_eq!(
        Ok((&b"next"[..], ParsedMessage::Item(message))),
        dlt_message(&bytes, Some(&config), false)
    );
}

#[test]
fn scenario_resync_after_junk() {
    let message = verbose_bool();
    let mut input: Vec<u8> = vec![0x00, 0x01, 0x02];
    input.extend(&message);
    let (dropped, rest) = forward_to_next_storage_header(&input).expect("pattern");
    assert_eq!(3, dropped);
    assert_eq!(&message[..], rest);
    let (_, decoded) = item(rest, true);
    assert_eq!(message, decoded.as_bytes());
    // the decoder drops the junk itself
    let (rest, decoded) = item(&input, true);
    assert!(rest.is_empty());
    assert_eq!(message, decoded.as_bytes());
    assert_eq!(
        Ok((&message[16..], 19)),
        skip_till_after_next_storage_header(&input)
    );
    assert_eq!(
        Ok((Some(3), "ECU".to_string())),
        dlt_storage_header(&input).map(|(_, found)| {
            let (header, dropped) = found.expect("header");
            (Some(dropped), header.ecu_id)
        })
    );
    // junk that ends like the start of the pattern
    let mut input: Vec<u8> = vec![0x44, 0x4C, 0x54, 0x44, 0x4C];
    input.extend(&message);
    assert_eq!(
        Some((5, &message[..])),
        forward_to_next_storage_header(&input)
    );
    assert!(matches!(
        skip_till_after_next_storage_header(&[0x44, 0x4C, 0x54, 0x02]),
        Err(DltParseError::ParsingHickup(_))
    ));
}

fn type_info(kind: TypeInfoKind, coding: StringCoding, variable: bool, trace: bool) -> TypeInfo {
    TypeInfo {
        kind,
        coding,
        has_variable_info: variable,
        has_trace_info: trace,
    }
}

fn all_kinds() -> Vec<TypeInfoKind> {
    let lengths = [
        TypeLength::BitLength8,
        TypeLength::BitLength16,
        TypeLength::BitLength32,
        TypeLength::BitLength64,
        TypeLength::BitLength128,
    ];
    let widths = [FloatWidth::Width32, FloatWidth::Width64];
    let mut kinds = vec![
        TypeInfoKind::Bool,
        TypeInfoKind::StringType,
        TypeInfoKind::Raw,
    ];
    for l in lengths {
        kinds.push(TypeInfoKind::Signed(l));
        kinds.push(TypeInfoKind::Unsigned(l));
    }
    for w in widths {
        kinds.push(TypeInfoKind::SignedFixedPoint(w));
        kinds.push(TypeInfoKind::UnsignedFixedPoint(w));
        kinds.push(TypeInfoKind::Float(w));
    }
    kinds
}

#[test]
fn type_info_roundtrips_for_every_combination() {
    let codings = [
        StringCoding::ASCII,
        StringCoding::UTF8,
        StringCoding::Reserved(2),
        StringCoding::Reserved(7),
    ];
    let mut count = 0;
    for kind in all_kinds() {
        for coding in codings {
            for flags in 0..4 {
                let info = type_info(kind, coding, flags & 1 == 1, flags & 2 == 2);
                assert_eq!(Some(info), TypeInfo::from_word(info.word()));
                for e in [Endianness::Big, Endianness::Little] {
                    let mut bytes = info.as_bytes(e);
                    assert_eq!(4, bytes.len());
                    bytes.extend(b"--");
                    assert_eq!(Ok((&b"--"[..], info)), dlt_type_info(&bytes, e));
                }
                count += 1;
            }
        }
    }
    assert_eq!(19 * 4 * 4, count);
}

#[test]
fn type_info_words_are_laid_out_bit_by_bit() {
    assert_eq!(
        0x0000_0010,
        type_info(TypeInfoKind::Bool, StringCoding::ASCII, false, false).word()
    );
    assert_eq!(
        0x0000_0023,
        type_info(
            TypeInfoKind::Signed(TypeLength::BitLength32),
            StringCoding::ASCII,
            false,
            false
        )
        .word()
    );
    assert_eq!(
        0x0000_8200,
        type_info(TypeInfoKind::StringType, StringCoding::UTF8, false, false).word()
    );
    assert_eq!(
        0x0001_0042,
        type_info(
            TypeInfoKind::Unsigned(TypeLength::BitLength16),
            StringCoding::Reserved(2),
            false,
            false
        )
        .word()
    );
    assert_eq!(
        0x0000_3844,
        type_info(
            TypeInfoKind::UnsignedFixedPoint(FloatWidth::Width64),
            StringCoding::ASCII,
            true,
            true
        )
        .word()
    );
    assert_eq!(
        0x0000_0400,
        type_info(TypeInfoKind::Raw, StringCoding::ASCII, false, false).word()
    );
    assert_eq!(
        0x0000_0084,
        type_info(
            TypeInfoKind::Float(FloatWidth::Width64),
            StringCoding::ASCII,
            false,
            false
        )
        .word()
    );
    // a boolean is a boolean with any width
    assert_eq!(
        Some(type_info(
            TypeInfoKind::Bool,
            StringCoding::ASCII,
            false,
            false
        )),
        TypeInfo::from_word(0x0000_0011)
    );
}

#[test]
fn undefined_type_info_words_are_malformed() {
    // no kind, two kinds, the reserved array kind
    for word in [0x0000_0001u32, 0x0000_0030, 0x0000_0103, 0x0000_0600] {
        assert_eq!(None, TypeInfo::from_word(word), "{:#x}", word);
    }
    // widths that the kind does not have
    for word in [
        0x0000_0020u32,
        0x0000_0026,
        0x0000_004F,
        0x0000_0082,
        0x0000_0085,
        0x0000_1022,
        0x0000_1045,
    ] {
        assert_eq!(None, TypeInfo::from_word(word), "{:#x}", word);
    }
    assert!(matches!(
        dlt_type_info(&[0x00, 0x00, 0x00, 0x26], Endianness::Big),
        Err(DltParseError::ParsingHickup(_))
    ));
    assert_eq!(
        Err(DltParseError::IncompleteParse { needed: Some(1) }),
        dlt_type_info(&[0x00, 0x00, 0x00], Endianness::Big)
    );
    assert!(matches!(
        dlt_argument(&[0x26, 0x00, 0x00, 0x00, 0x01], Endianness::Little),
        Err(DltParseError::ParsingHickup(_))
    ));
}

fn sample_arguments() -> Vec<Argument> {
    let name = || Some("n\u{e4}me".to_string());
    let unit = || Some("unit".to_string());
    let plain = |kind| type_info(kind, StringCoding::ASCII, false, false);
    let named = |kind| type_info(kind, StringCoding::UTF8, true, true);
    let scaling32 = FixedPoint {
        quantization: 0.25f32.to_bits(),
        offset: FixedPointValue::I32(i32::MIN),
    };
    let scaling64 = FixedPoint {
        quantization: f32::NAN.to_bits(),
        offset: FixedPointValue::I64(i64::MAX),
    };
    let number = |info: TypeInfo, fixed_point, value| Argument {
        type_info: info,
        name: if info.has_variable_info { name() } else { None },
        unit: if info.has_variable_info { unit() } else { None },
        fixed_point,
        value,
    };
    let other = |info: TypeInfo, value| Argument {
        type_info: info,
        name: if info.has_variable_info { name() } else { None },
        unit: None,
        fixed_point: None,
        value,
    };
    let mut arguments = Vec::new();
    for with in [plain, named] {
        arguments.extend([
            other(with(TypeInfoKind::Bool), Value::Bool(0)),
            other(with(TypeInfoKind::Bool), Value::Bool(0xFF)),
            other(with(TypeInfoKind::StringType), Value::StringVal(String::new())),
            other(
                with(TypeInfoKind::StringType),
                Value::StringVal("gr\u{fc}\u{df}e \u{1F600}".to_string()),
            ),
            other(with(TypeInfoKind::Raw), Value::Raw(vec![])),
            other(with(TypeInfoKind::Raw), Value::Raw(vec![0, 1, 0, 0xFF])),
            number(
                with(TypeInfoKind::Signed(TypeLength::BitLength8)),
                None,
                Value::I8(i8::MIN),
            ),
            number(
                with(TypeInfoKind::Signed(TypeLength::BitLength16)),
                None,
                Value::I16(-2),
            ),
            number(
                with(TypeInfoKind::Signed(TypeLength::BitLength32)),
                None,
                Value::I32(i32::MIN),
            ),
            number(
                with(TypeInfoKind::Signed(TypeLength::BitLength64)),
                None,
                Value::I64(-0x0102_0304_0506_0708),
            ),
            number(
                with(TypeInfoKind::Signed(TypeLength::BitLength128)),
                None,
                Value::I128(i128::MIN + 1),
            ),
            number(
                with(TypeInfoKind::Unsigned(TypeLength::BitLength8)),
                None,
                Value::U8(0x80),
            ),
            number(
                with(TypeInfoKind::Unsigned(TypeLength::BitLength16)),
                None,
                Value::U16(0x0102),
            ),
            number(
                with(TypeInfoKind::Unsigned(TypeLength::BitLength32)),
                None,
                Value::U32(0x0102_0304),
            ),
            number(
                with(TypeInfoKind::Unsigned(TypeLength::BitLength64)),
                None,
                Value::U64(u64::MAX - 1),
            ),
            number(
                with(TypeInfoKind::Unsigned(TypeLength::BitLength128)),
                None,
                Value::U128(0x0102_0304_0506_0708_090A_0B0C_0D0E_0F10),
            ),
            number(
                with(TypeInfoKind::Float(FloatWidth::Width32)),
                None,
                Value::F32((-0.0f32).to_bits()),
            ),
            number(
                with(TypeInfoKind::Float(FloatWidth::Width64)),
                None,
                Value::F64(f64::INFINITY.to_bits()),
            ),
            number(
                with(TypeInfoKind::SignedFixedPoint(FloatWidth::Width32)),
                Some(scaling32),
                Value::I32(-1),
            ),
            number(
                with(TypeInfoKind::SignedFixedPoint(FloatWidth::Width64)),
                Some(scaling64),
                Value::I64(i64::MIN),
            ),
            number(
                with(TypeInfoKind::UnsignedFixedPoint(FloatWidth::Width32)),
                Some(scaling32),
                Value::U32(u32::MAX),
            ),
            number(
                with(TypeInfoKind::UnsignedFixedPoint(FloatWidth::Width64)),
                Some(scaling64),
                Value::U64(1),
            ),
        ]);
    }
    arguments
}

#[test]
fn arguments_roundtrip_in_either_byte_order() {
    for argument in sample_arguments() {
        for e in [Endianness::Big, Endianness::Little] {
            let mut bytes = argument.as_bytes(e);
            let len = bytes.len();
            bytes.extend(b"behind");
            let (rest, decoded) = dlt_argument(&bytes, e).expect("argument");
            assert_eq!(b"behind", rest);
            assert_eq!(argument, decoded);
            // every proper part of the argument is incomplete
            for end in 0..len {
                assert!(
                    matches!(
                        dlt_argument(&bytes[..end], e),
                        Err(DltParseError::IncompleteParse { .. })
                    ),
                    "{:?} cut at {}",
                    argument,
                    end
                );
            }
        }
    }
}

#[test]
fn argument_bytes_are_exact() {
    let argument = Argument {
        type_info: type_info(
            TypeInfoKind::UnsignedFixedPoint(FloatWidth::Width32),
            StringCoding::UTF8,
            true,
            false,
        ),
        name: Some("ab".to_string()),
        unit: Some("m".to_string()),
        fixed_point: Some(FixedPoint {
            quantization: 1.0f32.to_bits(),
            offset: FixedPointValue::I32(-2),
        }),
        value: Value::U32(0x0102_0304),
    };
    assert_eq!(
        vec![
            0x00, 0x00, 0x98, 0x43, // descriptor
            0x00, 0x03, 0x00, 0x02, // lengths of name and unit
            0x61, 0x62, 0x00, 0x6D, 0x00, // name and unit
            0x3F, 0x80, 0x00, 0x00, // quantization
            0xFF, 0xFF, 0xFF, 0xFE, // offset
            0x01, 0x02, 0x03, 0x04, // value
        ],
        argument.as_bytes(Endianness::Big)
    );
    assert_eq!(
        vec![
            0x43, 0x98, 0x00, 0x00, 0x03, 0x00, 0x02, 0x00, 0x61, 0x62, 0x00, 0x6D, 0x00, 0x00,
            0x00, 0x80, 0x3F, 0xFE, 0xFF, 0xFF, 0xFF, 0x04, 0x03, 0x02, 0x01,
        ],
        argument.as_bytes(Endianness::Little)
    );
    let string = Argument {
        type_info: type_info(TypeInfoKind::StringType, StringCoding::ASCII, true, false),
        name: Some("n".to_string()),
        unit: None,
        fixed_point: None,
        value: Value::StringVal("hi".to_string()),
    };
    assert_eq!(
        vec![0x00, 0x0A, 0x00, 0x00, 0x03, 0x00, 0x02, 0x00, 0x6E, 0x00, 0x68, 0x69, 0x00],
        string.as_bytes(Endianness::Little)
    );
}

fn sample_messages() -> Vec<Message> {
    let mut messages = Vec::new();
    let payloads = vec![
        (
            PayloadContent::Verbose(sample_arguments()),
            MessageType::Log(LogLevel::Invalid(0)),
        ),
        (
            PayloadContent::Verbose(vec![]),
            MessageType::ApplicationTrace(ApplicationTraceType::Vfb),
        ),
        (
            PayloadContent::NonVerbose(0xDEAD_BEEF, vec![1, 2, 3]),
            MessageType::Unknown(7, 15),
        ),
        (
            PayloadContent::NonVerbose(1, vec![]),
            MessageType::NetworkTrace(NetworkTraceType::UserDefined(9)),
        ),
        (
            PayloadContent::ControlMsg(ControlType::Response, vec![]),
            MessageType::Control(ControlType::Unknown(0)),
        ),
        (
            PayloadContent::ControlMsg(ControlType::Unknown(0x13), vec![9, 8]),
            MessageType::Control(ControlType::Request),
        ),
        (
            PayloadContent::NetworkTrace(vec![vec![], vec![1, 2, 3], vec![0; 300]]),
            MessageType::NetworkTrace(NetworkTraceType::Someip),
        ),
        (
            PayloadContent::NetworkTrace(vec![]),
            MessageType::NetworkTrace(NetworkTraceType::Invalid),
        ),
    ];
    let mut counter = 0u8;
    for (payload, message_type) in payloads {
        for endianness in [Endianness::Big, Endianness::Little] {
            counter += 1;
            for storage_header in [
                None,
                Some(StorageHeader {
                    timestamp: DltTimeStamp {
                        seconds: 0x0102_0304,
                        microseconds: 999_999,
                    },
                    ecu_id: "E\u{fc}".to_string(),
                }),
            ] {
                messages.push(Message::new(
                    MessageConfig {
                        version: counter % 8,
                        counter,
                        endianness,
                        ecu_id: if counter % 2 == 0 {
                            Some("ECU".to_string())
                        } else {
                            None
                        },
                        session_id: if counter % 3 == 0 { Some(77) } else { None },
                        timestamp: if counter % 5 == 0 {
                            Some(u32::MAX)
                        } else {
                            None
                        },
                        payload: payload.clone(),
                        extended_header_info: Some(ExtendedHeaderConfig {
                            message_type,
                            app_id: "A".to_string(),
                            context_id: "CTXT".to_string(),
                        }),
                    },
                    storage_header,
                ));
            }
        }
    }
    // without extended header
    messages.push(Message::new(
        MessageConfig {
            version: 2,
            counter: 200,
            endianness: Endianness::Big,
            ecu_id: None,
            session_id: None,
            timestamp: None,
            payload: PayloadContent::NonVerbose(42, vec![4, 2]),
            extended_header_info: None,
        },
        None,
    ));
    messages
}

#[test]
fn messages_roundtrip_and_leave_what_follows() {
    let messages = sample_messages();
    assert_eq!(33, messages.len());
    for message in messages {
        let with_storage_header = message.storage_header.is_some();
        let mut bytes = message.as_bytes();
        let len = bytes.len();
        assert_eq!(
            message.header.overall_length() as usize + if with_storage_header { 16 } else { 0 },
            len
        );
        bytes.extend(b"----");
        assert_eq!(
            Ok((&b"----"[..], ParsedMessage::Item(message))),
            dlt_message(&bytes, None, with_storage_header)
        );
        for end in 1..len {
            assert!(
                matches!(
                    dlt_message(&bytes[..end], None, with_storage_header),
                    Err(DltParseError::IncompleteParse { .. })
                ),
                "cut at {} of {}",
                end,
                len
            );
        }
    }
}

#[test]
fn consuming_counts_every_stored_message() {
    let stored: Vec<Message> = sample_messages()
        .into_iter()
        .filter(|m| m.storage_header.is_some())
        .collect();
    assert_eq!(16, stored.len());
    let mut content: Vec<u8> = Vec::new();
    let mut lengths: Vec<u64> = Vec::new();
    for message in &stored {
        let bytes = message.as_bytes();
        lengths.push(bytes.len() as u64);
        content.extend(bytes);
    }
    let mut remaining: &[u8] = &content;
    let mut consumed: Vec<u64> = Vec::new();
    loop {
        match dlt_consume_msg(remaining) {
            Ok((rest, Some(n))) => {
                consumed.push(n);
                remaining = rest;
            }
            Ok((rest, None)) => {
                assert!(rest.is_empty());
                break;
            }
            Err(e) => panic!("{:?}", e),
        }
    }
    assert_eq!(lengths, consumed);
    assert!(remaining.is_empty());
}

#[test]
fn consuming_fails_on_damage() {
    let message = verbose_bool();
    assert_eq!(Ok((&b""[..], None)), dlt_consume_msg(b""));
    assert_eq!(Ok((&b"x"[..], Some(35))), dlt_consume_msg(&[&message[..], b"x"].concat()));
    assert!(matches!(
        dlt_consume_msg(&message[1..]),
        Err(DltParseError::ParsingHickup(_))
    ));
    assert_eq!(
        Err(DltParseError::IncompleteParse { needed: Some(1) }),
        dlt_consume_msg(&message[..34])
    );
    assert_eq!(
        Err(DltParseError::IncompleteParse { needed: Some(1) }),
        dlt_consume_msg(&message[..2])
    );
    assert_eq!(
        Err(DltParseError::IncompleteParse { needed: Some(1) }),
        dlt_consume_msg(&message[..3])
    );
    assert_eq!(
        Err(DltParseError::IncompleteParse { needed: Some(2) }),
        dlt_consume_msg(&message[..14])
    );
    assert_eq!(Ok((&message[16..], 16)), skip_storage_header(&message));
    assert!(matches!(
        skip_storage_header(b"DLT\x02"),
        Err(DltParseError::ParsingHickup(_))
    ));
}

#[test]
fn malformed_lengths_are_told_apart_from_missing_bytes() {
    // the length field is smaller than the headers
    let short_length = [0x21, 0x00, 0x00, 0x0D, 0, 0, 0, 0, 0, 0, 0, 0, 0, 0, 0];
    assert!(matches!(
        dlt_message(&short_length, None, false),
        Err(DltParseError::ParsingHickup(_))
    ));
    assert!(matches!(
        dlt_standard_header(&short_length),
        Err(DltParseError::ParsingHickup(_))
    ));
    // a control message without a byte of payload
    let control = [0x21, 0x00, 0x00, 0x0E, 0x16, 0, 0x41, 0, 0, 0, 0x43, 0, 0, 0];
    assert!(matches!(
        dlt_message(&control, None, false),
        Err(DltParseError::ParsingHickup(_))
    ));
    // a non-verbose message with less than four bytes of payload
    let non_verbose = [0x20, 0x00, 0x00, 0x07, 1, 2, 3];
    assert!(matches!(
        dlt_message(&non_verbose, None, false),
        Err(DltParseError::ParsingHickup(_))
    ));
    let non_verbose = [0x20, 0x00, 0x00, 0x08, 1, 2, 3, 4, 5];
    assert_eq!(
        Ok((
            &[5u8][..],
            PayloadContent::NonVerbose(0x0403_0201, vec![])
        )),
        dlt_message(&non_verbose, None, false).map(|(rest, parsed)| match parsed {
            ParsedMessage::Item(m) => (rest, m.payload),
            other => panic!("{:?}", other),
        })
    );
    // no pattern at all
    assert_eq!(
        Err(DltParseError::IncompleteParse { needed: None }),
        dlt_message(&[0u8; 40], None, true)
    );
    // bytes that are still missing
    let header = StandardHeader::new(1, Endianness::Big, 0, true, 100, None, None, Some(1));
    assert_eq!(18, calculate_all_headers_length(header.header_type_byte()));
    assert_eq!(118, header.overall_length());
    assert_eq!(Ok(100), validated_payload_length(&header, 118));
    assert_eq!(
        Err(DltParseError::IncompleteParse { needed: Some(1) }),
        validated_payload_length(&header, 117)
    );
    assert_eq!(
        Err(DltParseError::IncompleteParse { needed: Some(118) }),
        validated_payload_length(&header, 0)
    );
}

#[test]
fn headers_roundtrip() {
    let storage = StorageHeader {
        timestamp: DltTimeStamp {
            seconds: 1,
            microseconds: 0x0A0B_0C0D,
        },
        ecu_id: "AB".to_string(),
    };
    assert_eq!(
        vec![0x44, 0x4C, 0x54, 0x01, 1, 0, 0, 0, 0x0D, 0x0C, 0x0B, 0x0A, 0x41, 0x42, 0, 0],
        storage.as_bytes()
    );
    let mut bytes = storage.as_bytes();
    bytes.extend(b"rest");
    assert_eq!(
        Ok((&b"rest"[..], Some((storage, 0)))),
        dlt_storage_header(&bytes)
    );
    for header_type in 0..=255u8 {
        let header = StandardHeader::new(
            header_type / 32,
            if header_type & 2 == 2 {
                Endianness::Big
            } else {
                Endianness::Little
            },
            header_type,
            header_type & 1 == 1,
            0x1234,
            if header_type & 4 == 4 {
                Some("ECU".to_string())
            } else {
                None
            },
            if header_type & 8 == 8 { Some(0x0102_0304) } else { None },
            if header_type & 16 == 16 { Some(5) } else { None },
        );
        assert_eq!(header_type, header.header_type_byte());
        let mut bytes = header.as_bytes();
        assert_eq!(
            calculate_all_headers_length(header_type) as usize
                - if header_type & 1 == 1 { 10 } else { 0 },
            bytes.len()
        );
        bytes.extend(b"rest");
        assert_eq!(Ok((&b"rest"[..], header)), dlt_standard_header(&bytes));
    }
    for msin in 0..=255u8 {
        let header = ExtendedHeader {
            verbose: msin & 1 == 1,
            argument_count: msin,
            message_type: MessageType::from_msin(msin),
            application_id: "\u{e4}b".to_string(),
            context_id: "".to_string(),
        };
        assert_eq!(msin, header.message_type.msin(header.verbose));
        let mut bytes = header.as_bytes();
        assert_eq!(msin, bytes[0]);
        assert_eq!(10, bytes.len());
        bytes.extend(b"rest");
        assert_eq!(Ok((&b"rest"[..], header)), dlt_extended_header(&bytes));
    }
    assert_eq!(
        MessageType::Log(LogLevel::Info),
        MessageType::from_msin(0x41)
    );
    assert_eq!(
        MessageType::ApplicationTrace(ApplicationTraceType::Invalid(0)),
        MessageType::from_msin(0x02)
    );
    assert_eq!(
        MessageType::NetworkTrace(NetworkTraceType::Ipc),
        MessageType::from_msin(0x15)
    );
    assert_eq!(
        MessageType::Control(ControlType::Request),
        MessageType::from_msin(0x16)
    );
    assert_eq!(MessageType::Unknown(4, 3), MessageType::from_msin(0x38));
}

#[test]
fn text_fields_are_cut_at_zero_and_at_invalid_utf8() {
    let padded = b"abc\0\0\0\0\0rest";
    assert_eq!(
        Ok((&b"rest"[..], "abc".to_string())),
        dlt_zero_terminated_string(padded, 8)
    );
    // bytes behind the first zero belong to the field, but not to the text
    assert_eq!(
        Ok((&b"rest"[..], "a".to_string())),
        dlt_zero_terminated_string(b"a\0bcrest", 4)
    );
    assert_eq!(
        Ok((&b"abc"[..], "".to_string())),
        dlt_zero_terminated_string(b"abc", 0)
    );
    assert_eq!(
        Err(DltParseError::IncompleteParse { needed: Some(1) }),
        dlt_zero_terminated_string(b"abc", 8)
    );
    assert_eq!(
        Err(DltParseError::IncompleteParse { needed: Some(4) }),
        dlt_zero_terminated_string(b"abc\0", 8)
    );
    assert_eq!("", lossy_text(b""));
    assert_eq!("a\u{fc}", lossy_text(&[0x61, 0xC3, 0xBC]));
    assert_eq!("a", lossy_text(&[0x61, 0xC3]));
    assert_eq!("a", lossy_text(&[0x61, 0xFF, 0x62]));
    assert_eq!("", lossy_text(&[0x80, 0x61]));
    assert_eq!("ab", lossy_text(&[0x61, 0x62, 0xE2, 0x82]));
    assert_eq!(
        Ok((&b""[..], "\u{20AC}".to_string())),
        dlt_zero_terminated_string(&[0xE2, 0x82, 0xAC, 0x00], 4)
    );
    assert_eq!(
        Ok((&b""[..], "".to_string())),
        dlt_zero_terminated_string(&[0xE2, 0x82, 0x00, 0x00], 4)
    );
}

#[test]
fn integers_are_stored_in_either_byte_order() {
    let mut buf: Vec<u8> = vec![0xEE];
    put_u16(&mut buf, 0x0102, Endianness::Big);
    put_u16(&mut buf, 0x0102, Endianness::Little);
    put_u32(&mut buf, 0x0304_0506, Endianness::Big);
    put_u32(&mut buf, 0x0304_0506, Endianness::Little);
    assert_eq!(
        vec![0xEE, 1, 2, 2, 1, 3, 4, 5, 6, 6, 5, 4, 3],
        buf
    );
    let mut buf: Vec<u8> = Vec::new();
    put_u64(&mut buf, 0x0102_0304_0506_0708, Endianness::Big);
    put_u64(&mut buf, 0x0102_0304_0506_0708, Endianness::Little);
    assert_eq!(
        vec![1, 2, 3, 4, 5, 6, 7, 8, 8, 7, 6, 5, 4, 3, 2, 1],
        buf
    );
    assert_eq!(0x0102_0304_0506_0708, read_u64_at(&buf, 0, Endianness::Big));
    assert_eq!(0x0102_0304_0506_0708, read_u64_at(&buf, 8, Endianness::Little));
    assert_eq!(
        0x0102_0304_0506_0708_0807_0605_0403_0201,
        read_u128_at(&buf, 0, Endianness::Big)
    );
    assert_eq!(
        0x0102_0304_0506_0708_0807_0605_0403_0201,
        read_u128_at(&buf, 0, Endianness::Little)
    );
    let mut buf: Vec<u8> = Vec::new();
    put_u128(&mut buf, u128::MAX - 0xFF, Endianness::Little);
    assert_eq!(0x00, buf[0]);
    assert_eq!(vec![0xFF; 15], buf[1..]);
}

#[test]
fn arguments_are_counted() {
    let arguments = sample_arguments();
    let mut bytes: Vec<u8> = Vec::new();
    for argument in &arguments[..5] {
        argument.put(&mut bytes, Endianness::Big);
    }
    bytes.extend(b"tail");
    assert_eq!(
        Ok((&b"tail"[..], arguments[..5].to_vec())),
        dlt_arguments(&bytes, Endianness::Big, 5)
    );
    assert_eq!(
        Ok((&bytes[..], vec![])),
        dlt_arguments(&bytes, Endianness::Big, 0)
    );
    let (rest, first) = dlt_arguments(&bytes, Endianness::Big, 1).expect("one argument");
    assert_eq!(vec![arguments[0].clone()], first);
    assert_eq!(bytes.len() - 5, rest.len());
    // "tail" is no type descriptor
    assert!(matches!(
        dlt_arguments(&bytes, Endianness::Big, 6),
        Err(DltParseError::ParsingHickup(_))
    ));
}

fn header_of(message_type: MessageType, app: &str, ctx: &str) -> ExtendedHeader {
    ExtendedHeader {
        verbose: true,
        argument_count: 0,
        message_type,
        application_id: app.to_string(),
        context_id: ctx.to_string(),
    }
}

fn ids(list: &[(&str, u8)]) -> Option<Vec<(String, u8)>> {
    Some(list.iter().map(|(id, l)| (id.to_string(), *l)).collect())
}

#[test]
fn filter_rules_apply_in_order() {
    let warn = header_of(MessageType::Log(LogLevel::Warn), "APP", "CTX");
    let ecu = "ECU".to_string();
    let processed = |cfg: &DltFilterConfig| ProcessedDltFilterConfig::from_config(cfg);

    // without filter nothing is dropped
    assert!(!filtered_out(Some(&warn), None, Some(&ecu)));
    assert!(!filtered_out(None, None, None));

    // rule 1: the level
    for (min, dropped) in [(1, true), (2, true), (3, false), (4, false), (6, false)] {
        let config = processed(&filter(Some(min)));
        assert_eq!(dropped, filtered_out(Some(&warn), Some(&config), Some(&ecu)));
        // the decision depends on the arguments alone
        assert_eq!(dropped, filtered_out(Some(&warn), Some(&config), Some(&ecu)));
    }
    // a level that is no level sets no bound
    for min in [0, 7, 255] {
        assert_eq!(None, u8_to_log_level(min));
        let config = processed(&filter(Some(min)));
        assert!(config.min_log_level.is_none());
        assert!(!filtered_out(Some(&warn), Some(&config), Some(&ecu)));
    }
    let trace = header_of(
        MessageType::ApplicationTrace(ApplicationTraceType::State),
        "APP",
        "CTX",
    );
    let invalid = header_of(MessageType::Log(LogLevel::Invalid(9)), "APP", "CTX");
    let fatal_only = processed(&filter(Some(1)));
    assert!(!filtered_out(Some(&trace), Some(&fatal_only), None));
    assert!(filtered_out(Some(&invalid), Some(&fatal_only), None));

    // rules 2 to 4: the ids
    let mut cfg = filter(None);
    cfg.app_ids = ids(&[("APP", 1), ("APP2", 1)]);
    assert!(!filtered_out(Some(&warn), Some(&processed(&cfg)), None));
    cfg.app_ids = ids(&[("APP2", 1)]);
    assert!(filtered_out(Some(&warn), Some(&processed(&cfg)), None));
    cfg.app_ids = ids(&[]);
    assert!(!filtered_out(Some(&warn), Some(&processed(&cfg)), None));
    cfg.app_ids = None;
    cfg.context_ids = ids(&[("CTX2", 1)]);
    assert!(filtered_out(Some(&warn), Some(&processed(&cfg)), None));
    cfg.context_ids = ids(&[("CTX2", 1), ("CTX", 1)]);
    assert!(!filtered_out(Some(&warn), Some(&processed(&cfg)), None));
    cfg.ecu_ids = ids(&[("ECU2", 1)]);
    assert!(filtered_out(Some(&warn), Some(&processed(&cfg)), Some(&ecu)));
    assert!(!filtered_out(Some(&warn), Some(&processed(&cfg)), None));
    cfg.ecu_ids = ids(&[("ECU2", 1), ("ECU", 1)]);
    assert!(!filtered_out(Some(&warn), Some(&processed(&cfg)), Some(&ecu)));

    // rule 4 asks for the ECU id alone: it applies without extended header too
    let mut cfg = filter(None);
    cfg.ecu_ids = ids(&[("ECU1", 1)]);
    let other = "ECU2".to_string();
    let same = "ECU1".to_string();
    assert!(filtered_out(None, Some(&processed(&cfg)), Some(&other)));
    assert!(!filtered_out(None, Some(&processed(&cfg)), Some(&same)));
    assert!(!filtered_out(None, Some(&processed(&cfg)), None));
    cfg.ecu_ids = ids(&[]);
    assert!(!filtered_out(None, Some(&processed(&cfg)), Some(&other)));

    // rule 5: without extended header
    let mut cfg = filter(Some(1));
    cfg.ecu_ids = ids(&[("ECU", 1)]);
    assert!(!filtered_out(None, Some(&processed(&cfg)), Some(&ecu)));
    cfg.app_ids = ids(&[("A", 1), ("B", 1)]);
    cfg.app_id_count = 2;
    assert!(!filtered_out(None, Some(&processed(&cfg)), Some(&ecu)));
    cfg.app_id_count = 3;
    assert!(filtered_out(None, Some(&processed(&cfg)), Some(&ecu)));
    cfg.app_id_count = -1;
    assert!(!filtered_out(None, Some(&processed(&cfg)), Some(&ecu)));
    cfg.context_ids = ids(&[]);
    cfg.context_id_count = 1;
    assert!(filtered_out(None, Some(&processed(&cfg)), Some(&ecu)));
    cfg.context_id_count = 0;
    assert!(!filtered_out(None, Some(&processed(&cfg)), Some(&ecu)));
}

#[test]
fn filter_ids_below_the_bound_are_not_retained() {
    let mut cfg = filter(Some(3));
    cfg.app_ids = ids(&[("LOW", 2), ("EVEN", 3), ("HIGH", 4), ("LOW", 5)]);
    let processed = ProcessedDltFilterConfig::from_config(&cfg);
    let set = processed.app_ids.expect("set");
    assert_eq!(3, set.len());
    assert!(set.contains("LOW"));
    assert!(set.contains("EVEN"));
    assert!(set.contains("HIGH"));
    cfg.app_ids = ids(&[("LOW", 2), ("EVEN", 3), ("HIGH", 4)]);
    let processed = ProcessedDltFilterConfig::from_config(&cfg);
    let set = processed.app_ids.expect("set");
    assert_eq!(2, set.len());
    assert!(!set.contains("LOW"));
    cfg.min_log_level = None;
    let processed = ProcessedDltFilterConfig::from_config(&cfg);
    assert_eq!(3, processed.app_ids.expect("set").len());
    assert!(processed.ecu_ids.is_none());
}

#[test]
fn filter_uses_the_storage_ecu_id_where_the_header_has_none() {
    let input = verbose_bool();
    let mut cfg = filter(None);
    cfg.ecu_ids = ids(&[("OTHER", 1)]);
    let config = ProcessedDltFilterConfig::from_config(&cfg);
    assert_eq!(
        Ok((&b""[..], ParsedMessage::FilteredOut(5))),
        dlt_message(&input, Some(&config), true)
    );
    cfg.ecu_ids = ids(&[("ECU", 1)]);
    let config = ProcessedDltFilterConfig::from_config(&cfg);
    assert!(matches!(
        dlt_message(&input, Some(&config), true),
        Ok((_, ParsedMessage::Item(_)))
    ));
    // without storage header there is no ECU id to go by
    cfg.ecu_ids = ids(&[("OTHER", 1)]);
    let config = ProcessedDltFilterConfig::from_config(&cfg);
    assert!(matches!(
        dlt_message(&input[16..], Some(&config), false),
        Ok((_, ParsedMessage::Item(_)))
    ));
}

#[test]
fn service_ids_are_known_from_1_to_0x23() {
    assert_eq!(None, service_id_lookup(0));
    assert_eq!(None, service_id_lookup(0x24));
    assert_eq!(None, service_id_lookup(0xFF));
    for id in 1..=0x23u8 {
        assert!(service_id_lookup(id).is_some());
    }
    assert_eq!(
        Some(("set_log_level", "Set the Log Level")),
        service_id_lookup(0x01)
    );
    assert_eq!(
        Some((
            "set_use_extended_header",
            "SetUseExtendedHeader -- deprecated"
        )),
        service_id_lookup(0x10)
    );
    assert_eq!(
        Some((
            "buffer_overflow_notification",
            "Report that a buffer overflow occurred"
        )),
        service_id_lookup(0x23)
    );
}

#[test]
fn errors_describe_themselves() {
    assert_eq!(
        "parsing stopped, cannot continue: why",
        DltParseError::Unrecoverable("why".to_string()).message()
    );
    assert_eq!(
        "parsing error, try to continue: why",
        DltParseError::ParsingHickup("why".to_string()).message()
    );
    assert_eq!(
        "parsing could not complete",
        DltParseError::IncompleteParse { needed: Some(1) }.message()
    );
}

#[test]
fn verbose_arguments_are_read_from_the_payload_alone() {
    // a bool argument of five bytes in a payload of seven: two bytes belong to no argument
    let mut bytes = verbose_bool();
    bytes[19] = 0x15;
    bytes.extend([0xAA, 0xBB, 0xCC]);
    let (rest, message) = item(&bytes, true);
    assert_eq!(vec![0xCC], rest);
    assert_eq!(7, message.header.payload_length);
    match &message.payload {
        PayloadContent::Verbose(arguments) => {
            assert_eq!(1, arguments.len());
            assert_eq!(Value::Bool(0x6F), arguments[0].value);
        }
        _ => panic!("a verbose payload"),
    }

    // an argument of five bytes in a payload of three is malformed, whatever follows
    let mut bytes = verbose_bool();
    bytes[19] = 0x11;
    bytes.extend([0xAA, 0xBB, 0xCC]);
    assert!(matches!(
        dlt_message(&bytes, None, true),
        Err(DltParseError::ParsingHickup(_))
    ));

    // the payload decoder by itself
    let payload = [0x10, 0x00, 0x00, 0x00, 0x01, 0xEE];
    match dlt_payload(&payload, Endianness::Little, true, 5, 1, false, false) {
        Ok((rest, PayloadContent::Verbose(arguments))) => {
            assert_eq!(&[0xEE], rest);
            assert_eq!(Value::Bool(1), arguments[0].value);
        }
        _ => panic!("a verbose payload"),
    }
    assert!(matches!(
        dlt_payload(&payload, Endianness::Little, true, 4, 1, false, false),
        Err(DltParseError::ParsingHickup(_))
    ));
    assert_eq!(
        Err(DltParseError::IncompleteParse { needed: Some(2) }),
        dlt_payload(&payload, Endianness::Little, true, 8, 1, false, false).map(|_| ())
    );
}
