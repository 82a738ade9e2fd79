use dlt_core::dlf::{DlfError, DlfEvent, DlfParser, DlfReader};
use dlt_core::filtering::DltFilterConfig;

const TEST_DLF: &str = r#"<?xml version="1.0" encoding="UTF-8"?>
<dltfilter>
    <filter>
        <ecuid>E1</ecuid>
        <applicationid>A1</applicationid>
        <contextid>C1</contextid>
        <logLevelMax>7</logLevelMax>
        <enableecuid>1</enableecuid>
        <enableapplicationid>1</enableapplicationid>
        <enablecontextid>1</enablecontextid>
        <enableLogLevelMax>1</enableLogLevelMax>
        <enablefilter>1</enablefilter>
    </filter>
</dltfilter>
"#;

#[test]
fn test_parse_dlf_filter() {
    let xml = r#"
            <dltfilter>
                <filter>
                    <ecuid>E1</ecuid>
                    <applicationid>A1</applicationid>
                    <contextid>C1</contextid>
                    <logLevelMax>7</logLevelMax>
                    <enableecuid>1</enableecuid>
                    <enableapplicationid>1</enableapplicationid>
                    <enablecontextid>1</enablecontextid>
                    <enableLogLevelMax>1</enableLogLevelMax>
                    <enablefilter>1</enablefilter>
                </filter>
            </dltfilter>
        "#;

    let reader = DlfReader::from_reader(xml.as_bytes()).unwrap();
    let config = DlfParser::parse(reader).expect("parse failed");

    assert_eq!(
        config,
        DltFilterConfig {
            min_log_level: None,
            app_ids: Some(vec![(String::from("A1"), 7)]),
            ecu_ids: Some(vec![(String::from("E1"), 7)]),
            context_ids: Some(vec![(String::from("C1"), 7)]),
            app_id_count: 1,
            context_id_count: 1,
        }
    );
}

#[test]
fn test_parse_dlf_file() {
    let reader = DlfReader::from_reader(TEST_DLF.as_bytes()).unwrap();
    let config = DlfParser::parse(reader).expect("parse failed");

    assert_eq!(
        config,
        DltFilterConfig {
            min_log_level: None,
            app_ids: Some(vec![(String::from("A1"), 7)]),
            ecu_ids: Some(vec![(String::from("E1"), 7)]),
            context_ids: Some(vec![(String::from("C1"), 7)]),
            app_id_count: 1,
            context_id_count: 1,
        }
    );
}

fn parse(xml: &str) -> Result<DltFilterConfig, DlfError> {
    DlfParser::parse(DlfReader::from_reader(xml.as_bytes()).unwrap())
}

fn empty_config() -> DltFilterConfig {
    DltFilterConfig {
        min_log_level: None,
        app_ids: None,
        ecu_ids: None,
        context_ids: None,
        app_id_count: 0,
        context_id_count: 0,
    }
}

#[test]
fn filters_take_part_only_when_enabled_with_a_level() {
    assert_eq!(Ok(empty_config()), parse(""));
    assert_eq!(Ok(empty_config()), parse("<dltfilter></dltfilter>"));
    // the filter is not enabled
    assert_eq!(
        Ok(empty_config()),
        parse(
            "<filter><ecuid>E</ecuid><logLevelMax>3</logLevelMax><enableecuid>1</enableecuid>\
             <enableLogLevelMax>1</enableLogLevelMax><enablefilter>0</enablefilter></filter>"
        )
    );
    // the level is not enabled
    assert_eq!(
        Ok(empty_config()),
        parse(
            "<filter><ecuid>E</ecuid><logLevelMax>3</logLevelMax><enableecuid>1</enableecuid>\
             <enableLogLevelMax>2</enableLogLevelMax><enablefilter>1</enablefilter></filter>"
        )
    );
    // there is no level
    assert_eq!(
        Ok(empty_config()),
        parse(
            "<filter><ecuid>E</ecuid><enableecuid>1</enableecuid>\
             <enableLogLevelMax>1</enableLogLevelMax><enablefilter>1</enablefilter></filter>"
        )
    );
    // the document ends inside the filter
    assert_eq!(
        Ok(empty_config()),
        parse(
            "<filter><ecuid>E</ecuid><logLevelMax>3</logLevelMax><enableecuid>1</enableecuid>\
             <enableLogLevelMax>1</enableLogLevelMax><enablefilter>1</enablefilter>"
        )
    );
}

#[test]
fn ids_take_part_only_when_enabled() {
    let xml = "<dltfilter>\
        <filter><ecuid>E1</ecuid><applicationid>A1</applicationid><contextid>C1</contextid>\
        <logLevelMax>4</logLevelMax><enableapplicationid>1</enableapplicationid>\
        <enableLogLevelMax>1</enableLogLevelMax><enablefilter>1</enablefilter></filter>\
        <filter><ecuid>E2</ecuid><applicationid>A2</applicationid><contextid>C2</contextid>\
        <logLevelMax>260</logLevelMax><enableapplicationid>1</enableapplicationid>\
        <enablecontextid>1</enablecontextid><enableecuid>0</enableecuid>\
        <enableLogLevelMax>1</enableLogLevelMax><enablefilter>1</enablefilter></filter>\
        <filter><applicationid></applicationid><logLevelMax>1</logLevelMax>\
        <enableapplicationid>+1</enableapplicationid>\
        <enableLogLevelMax>1</enableLogLevelMax><enablefilter>1</enablefilter></filter>\
        </dltfilter>";
    assert_eq!(
        Ok(DltFilterConfig {
            min_log_level: None,
            app_ids: Some(vec![
                (String::from("A1"), 4),
                (String::from("A2"), 4),
                (String::from(""), 1)
            ]),
            ecu_ids: None,
            context_ids: Some(vec![(String::from("C2"), 4)]),
            app_id_count: 3,
            context_id_count: 1,
        }),
        parse(xml)
    );
}

#[test]
fn errors_are_told_apart() {
    assert!(matches!(
        parse("<filter><logLevelMax>high</logLevelMax></filter>"),
        Err(DlfError::Parse(_))
    ));
    assert_eq!(
        Err(DlfError::Parse("Invalid number -1".to_string())),
        parse("<filter><enablefilter>-1</enablefilter></filter>")
    );
    assert!(matches!(
        parse("<filter><ecuid><b/></ecuid></filter>"),
        Err(DlfError::Xml(_))
    ));
    assert!(matches!(
        parse("<filter><ecuid>E1</filter>"),
        Err(DlfError::Xml(_))
    ));
    assert!(matches!(
        parse("<filter><ecuid>E1"),
        Err(DlfError::Xml(_))
    ));
    assert!(matches!(
        parse("<filter><ecuid>&nosuchentity;</ecuid></filter>"),
        Err(DlfError::Xml(_))
    ));
    assert!(matches!(parse("<a></b>"), Err(DlfError::Xml(_))));
}

#[test]
fn reader_yields_events_in_document_order() {
    let document = b"<dltfilter><filter><ecuid>E &amp; F</ecuid><other>x</other>\
          <contextid>C<i>nested</i></contextid></filter></dltfilter>";
    let mut reader = DlfReader::from_reader(document).unwrap();
    assert_eq!(Ok(DlfEvent::FilterStart), reader.read());
    assert_eq!(Ok(DlfEvent::EcuId("E & F".to_string())), reader.read());
    assert_eq!(Ok(DlfEvent::ContextId("C".to_string())), reader.read());
    assert_eq!(Ok(DlfEvent::FilterEnd), reader.read());
    assert_eq!(Ok(DlfEvent::Eof), reader.read());
    assert_eq!(Ok(DlfEvent::Eof), reader.read());
    assert_eq!(117, document.len());
    assert_eq!(117, reader.position());
}

#[test]
fn dlf_errors_describe_themselves() {
    assert_eq!("why", DlfError::Parse("why".to_string()).message());
    assert_eq!("why", DlfError::Xml("why".to_string()).message());
}
