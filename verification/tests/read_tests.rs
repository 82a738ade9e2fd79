use dlt_core::parse::{dlt_standard_header, DltParseError, ParsedMessage};
use dlt_core::read::{parse_length, read_message, DltMessageReader};
use dlt_core::statistics::{
    collect_statistics, next_statistic, statistic_of, Statistic, StatisticCollector,
};
use dlt_core::statistics_common::StatisticInfoCollector;

const DLT_MESSAGE: &[u8] = &[
    0x3D, 0x0A, 0x00, 0x24, 0x45, 0x43, 0x55, 0x31, 0x00, 0x00, 0x01, 0x7F, 0x00, 0x5B, 0xF7,
    0x16, 0x41, 0x01, 0x41, 0x50, 0x50, 0x00, 0x43, 0x54, 0x58, 0x00, 0x00, 0x82, 0x00, 0x00,
    0x04, 0x00, 0x66, 0x6F, 0x6F, 0x00,
];

const DLT_MESSAGE_WITH_STORAGE_HEADER: &[u8] = &[
    0x44, 0x4C, 0x54, 0x01, 0x56, 0xA2, 0x91, 0x5C, 0x9C, 0x91, 0x0B, 0x00, 0x45, 0x43, 0x55,
    0x31, 0x3D, 0x0A, 0x00, 0x24, 0x45, 0x43, 0x55, 0x31, 0x00, 0x00, 0x01, 0x7F, 0x00, 0x5B,
    0xF7, 0x16, 0x41, 0x01, 0x41, 0x50, 0x50, 0x00, 0x43, 0x54, 0x58, 0x00, 0x00, 0x82, 0x00,
    0x00, 0x04, 0x00, 0x66, 0x6F, 0x6F, 0x00,
];

#[test]
fn read_test_message_reader() {
    let messages_with_storage = [
        (DLT_MESSAGE, false),
        (DLT_MESSAGE_WITH_STORAGE_HEADER, true),
    ];

    for message_with_storage in &messages_with_storage {
        let bytes = message_with_storage.0;
        let with_storage_header = message_with_storage.1;

        let mut reader = DltMessageReader::new(bytes, with_storage_header);
        assert_eq!(with_storage_header, reader.with_storage_header());

        let slice = reader.next_message_slice().expect("message");
        assert_eq!(bytes, slice);

        assert!(reader.next_message_slice().expect("message").is_empty());
    }
}

#[test]
fn read_test_read_message() {
    let messages_with_storage = [
        (DLT_MESSAGE, false),
        (DLT_MESSAGE_WITH_STORAGE_HEADER, true),
    ];

    for message_with_storage in &messages_with_storage {
        let bytes = message_with_storage.0;
        let with_storage_header = message_with_storage.1;

        let mut reader = DltMessageReader::new(bytes, with_storage_header);

        if let Some(ParsedMessage::Item(message)) =
            read_message(&mut reader, None).expect("message")
        {
            assert_eq!(bytes, message.as_bytes());
        }

        assert_eq!(None, read_message(&mut reader, None).expect("message"))
    }
}

#[test]
fn test_empty_statistics() {
    let collector = StatisticInfoCollector::default();
    let stats = collector.collect();

    assert_eq!(0, stats.app_ids.len());
    assert_eq!(0, stats.context_ids.len());
    assert_eq!(0, stats.ecu_ids.len());
    assert!(!stats.contained_non_verbose);
}

#[test]
fn test_collect_statistics() {
    let messages_with_storage = [
        (DLT_MESSAGE, false),
        (DLT_MESSAGE_WITH_STORAGE_HEADER, true),
    ];

    for message_with_storage in &messages_with_storage {
        let bytes = message_with_storage.0;
        let with_storage_header = message_with_storage.1;

        let mut reader = DltMessageReader::new(bytes, with_storage_header);
        let mut collector = StatisticInfoCollector::default();

        collect_statistics(&mut reader, &mut collector).expect("collect statistics");
        let stats = collector.collect();

        assert_eq!(1, stats.app_ids.len());
        assert_eq!(1, stats.context_ids.len());
        assert_eq!(1, stats.ecu_ids.len());
        assert!(!stats.contained_non_verbose);
    }
}

#[test]
fn reader_yields_messages_in_source_order() {
    let mut bytes: Vec<u8> = Vec::new();
    for counter in 0..5u8 {
        let mut message = DLT_MESSAGE_WITH_STORAGE_HEADER.to_vec();
        message[17] = counter;
        bytes.extend(message);
    }
    let mut reader = DltMessageReader::new(&bytes, true);
    for counter in 0..5u8 {
        match read_message(&mut reader, None).expect("read") {
            Some(ParsedMessage::Item(message)) => {
                assert_eq!(counter, message.header.message_counter)
            }
            _ => panic!("unexpected item"),
        }
    }
    assert_eq!(None, read_message(&mut reader, None).expect("read"));
}

#[test]
fn reader_reports_end_on_short_header() {
    let mut reader = DltMessageReader::new(&DLT_MESSAGE[..3], false);
    assert!(reader.next_message_slice().expect("end").is_empty());
    let mut reader = DltMessageReader::new(&DLT_MESSAGE_WITH_STORAGE_HEADER[..19], true);
    assert!(reader.next_message_slice().expect("end").is_empty());
}

#[test]
fn reader_fails_on_truncated_body() {
    let mut reader = DltMessageReader::new(&DLT_MESSAGE[..20], false);
    assert!(matches!(
        reader.next_message_slice(),
        Err(DltParseError::Unrecoverable(_))
    ));
    assert!(reader.next_message_slice().expect("end").is_empty());
}

#[test]
fn reader_fails_on_length_below_header() {
    let bytes: Vec<u8> = vec![0x21, 0x00, 0x00, 0x03, 0x00, 0x00, 0x00, 0x00];
    let mut reader = DltMessageReader::new(&bytes, false);
    assert!(matches!(
        reader.next_message_slice(),
        Err(DltParseError::Unrecoverable(_))
    ));
}

#[test]
fn parse_length_reads_big_endian_length() {
    assert_eq!(Ok(0x24), parse_length(&DLT_MESSAGE[..4]));
    assert_eq!(Ok(0x1234), parse_length(&[0x21, 0x00, 0x12, 0x34, 0xFF]));
    assert_eq!(
        Err(DltParseError::IncompleteParse { needed: Some(2) }),
        parse_length(&[0x21, 0x00])
    );
}

#[test]
fn statistic_of_reads_headers_only() {
    let statistic = statistic_of(DLT_MESSAGE_WITH_STORAGE_HEADER, true).expect("statistic");
    assert_eq!(Some(dlt_core::dlt::LogLevel::Info), statistic.log_level);
    assert_eq!("ECU1", statistic.storage_header.expect("storage header").ecu_id);
    assert_eq!(Some("ECU1".to_string()), statistic.standard_header.ecu_id);
    assert_eq!(10, statistic.standard_header.payload_length);
    let extended = statistic.extended_header.expect("extended header");
    assert_eq!("APP", extended.application_id);
    assert_eq!("CTX", extended.context_id);
    assert!(statistic.is_verbose);
    assert_eq!(&DLT_MESSAGE[26..], statistic.payload);
}

struct MessageCounter {
    count: usize,
    fail_at: usize,
}

impl StatisticCollector for MessageCounter {
    fn collect_statistic(&mut self, _statistic: Statistic) -> Result<(), DltParseError> {
        if self.count == self.fail_at {
            return Err(DltParseError::Unrecoverable("enough".to_string()));
        }
        self.count += 1;
        Ok(())
    }
}

#[test]
fn collect_statistics_visits_every_message_and_stops_on_error() {
    let mut bytes: Vec<u8> = Vec::new();
    for _ in 0..4 {
        bytes.extend(DLT_MESSAGE);
    }
    let mut reader = DltMessageReader::new(&bytes, false);
    let mut counter = MessageCounter {
        count: 0,
        fail_at: 100,
    };
    collect_statistics(&mut reader, &mut counter).expect("collect");
    assert_eq!(4, counter.count);

    let mut reader = DltMessageReader::new(&bytes, false);
    let mut counter = MessageCounter {
        count: 0,
        fail_at: 2,
    };
    assert_eq!(
        Err(DltParseError::Unrecoverable("enough".to_string())),
        collect_statistics(&mut reader, &mut counter)
    );
    assert_eq!(2, counter.count);
}

#[test]
fn collector_counts_levels_per_id() {
    let mut bytes: Vec<u8> = Vec::new();
    // three info messages, one of them of another application
    bytes.extend(DLT_MESSAGE);
    bytes.extend(DLT_MESSAGE);
    let mut other = DLT_MESSAGE.to_vec();
    other[18] = 0x42;
    bytes.extend(other);
    // a non-verbose control message without ECU id
    bytes.extend([
        0x21, 0x00, 0x00, 0x10, 0x16, 0x00, 0x41, 0x50, 0x50, 0x00, 0x43, 0x54, 0x58, 0x00, 0x11,
        0x00,
    ]);
    let mut reader = DltMessageReader::new(&bytes, false);
    let mut collector = StatisticInfoCollector::new();
    collect_statistics(&mut reader, &mut collector).expect("collect statistics");
    let mut stats = collector.collect();
    stats.app_ids.sort_by(|a, b| a.0.cmp(&b.0));
    stats.ecu_ids.sort_by(|a, b| a.0.cmp(&b.0));

    assert_eq!(2, stats.app_ids.len());
    assert_eq!("APP", stats.app_ids[0].0);
    assert_eq!(2, stats.app_ids[0].1.log_info);
    assert_eq!(1, stats.app_ids[0].1.non_log);
    assert_eq!("BPP", stats.app_ids[1].0);
    assert_eq!(1, stats.app_ids[1].1.log_info);
    assert_eq!(0, stats.app_ids[1].1.non_log);
    assert_eq!(1, stats.context_ids.len());
    assert_eq!(3, stats.context_ids[0].1.log_info);
    assert_eq!(1, stats.context_ids[0].1.non_log);
    assert_eq!(2, stats.ecu_ids.len());
    assert_eq!("ECU1", stats.ecu_ids[0].0);
    assert_eq!(3, stats.ecu_ids[0].1.log_info);
    assert_eq!("NONE", stats.ecu_ids[1].0);
    assert_eq!(1, stats.ecu_ids[1].1.non_log);
    assert!(stats.contained_non_verbose);
}

#[test]
fn next_statistic_steps_through_the_source() {
    let mut bytes: Vec<u8> = Vec::new();
    bytes.extend(DLT_MESSAGE);
    let mut second = DLT_MESSAGE.to_vec();
    second[1] = 0x0B;
    bytes.extend(second);
    let mut reader = DltMessageReader::new(&bytes, false);

    let first = next_statistic(&mut reader).expect("first").expect("a message");
    assert_eq!(0x0A, first.standard_header.message_counter);
    assert_eq!(&DLT_MESSAGE[26..], first.payload);
    let second = next_statistic(&mut reader).expect("second").expect("a message");
    assert_eq!(0x0B, second.standard_header.message_counter);
    assert!(next_statistic(&mut reader).expect("end").is_none());
    assert!(next_statistic(&mut reader).expect("end").is_none());
}

#[test]
fn next_statistic_fails_on_a_slice_without_headers() {
    // the length leaves no room for the extended header that is announced
    let bytes: Vec<u8> = vec![0x21, 0x00, 0x00, 0x06, 0x41, 0x01];
    let mut reader = DltMessageReader::new(&bytes, false);
    assert!(matches!(
        next_statistic(&mut reader),
        Err(DltParseError::ParsingHickup(_))
    ));
    assert!(next_statistic(&mut reader).expect("end").is_none());
}

#[test]
fn collect_statistics_of_no_message_asks_no_collector() {
    let mut counter = MessageCounter {
        count: 0,
        fail_at: 0,
    };
    let mut reader = DltMessageReader::new(&[], false);
    assert_eq!(Ok(()), collect_statistics(&mut reader, &mut counter));
    let mut reader = DltMessageReader::new(&DLT_MESSAGE[..3], false);
    assert_eq!(Ok(()), collect_statistics(&mut reader, &mut counter));
    assert_eq!(0, counter.count);
}

#[test]
fn collect_statistics_fails_with_the_error_of_the_first_slice() {
    let mut counter = MessageCounter {
        count: 0,
        fail_at: 100,
    };
    let mut reader = DltMessageReader::new(&DLT_MESSAGE[..20], false);
    assert!(matches!(
        collect_statistics(&mut reader, &mut counter),
        Err(DltParseError::Unrecoverable(_))
    ));
    let bytes: Vec<u8> = vec![0x21, 0x00, 0x00, 0x06, 0x41, 0x01];
    let mut reader = DltMessageReader::new(&bytes, false);
    assert!(matches!(
        collect_statistics(&mut reader, &mut counter),
        Err(DltParseError::ParsingHickup(_))
    ));
    assert_eq!(0, counter.count);
}

#[test]
fn malformed_header_says_what_is_wrong() {
    let bytes: Vec<u8> = vec![0x21, 0x00, 0x00, 0x06, 0x41, 0x01];
    assert_eq!(
        Err(DltParseError::ParsingHickup(
            "Header indicates wrong message length".to_string()
        )),
        dlt_standard_header(&bytes).map(|_| ())
    );
}
