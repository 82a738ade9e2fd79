use dlt_core::dlt::{
    FloatWidth, MessageType, StringCoding::ASCII, StringCoding::UTF8, TypeInfo, TypeInfoKind,
    TypeInfoKind::Signed, TypeInfoKind::Unsigned, TypeLength::BitLength32,
    TypeLength::BitLength64, TypeLength::BitLength8,
};
use dlt_core::fibex::{
    build_model, extract_metadata, frame_key, gather_fibex_data, gather_tokens, model_of_tokens,
    read_fibexes, type_info_for_signal_ref,
    values_by_sequence_number, FibexMetadata, FrameMetadata, FrameMetadataIdentification,
    PduMetadata,
};
use dlt_core::fibex_notes::{load_notes, LoadNotes};
use dlt_core::fibex_reader::{attr_opt, attribute_matches, decimal_text, Error};
use dlt_core::header::ExtendedHeader;
use dlt_core::xml::{
    is_complete, line_and_column, parse_usize, xml_tokens, XmlAttribute, XmlItem, XmlToken,
};

const DLT_MESSAGES_XML: &str = r#"<?xml version="1.0" encoding="UTF-8"?>
<fx:FIBEX xmlns:fx="http://www.asam.net/xml/fbx" xmlns:ho="http://www.asam.net/xml" xmlns:xsi="http://www.w3.org/2001/XMLSchema-instance" VERSION="3.1.0">
  <fx:PROJECT ID="projectEntryId">
    <ho:SHORT-NAME>projectNumber</ho:SHORT-NAME>
  </fx:PROJECT>
  <fx:ELEMENTS>
    <fx:ECUS>
      <fx:ECU ID="Entry">
        <ho:SHORT-NAME>Entry</ho:SHORT-NAME>
        <fx:MANUFACTURER-EXTENSION>
          <SW_VERSION>001.004.062</SW_VERSION>
          <APPLICATIONS>
            <APPLICATION>
              <APPLICATION_ID>DR</APPLICATION_ID>
              <APPLICATION_DESCRIPTION>dead reckoning</APPLICATION_DESCRIPTION>
              <CONTEXTS>
                <CONTEXT>
                  <CONTEXT_ID>CTX1</CONTEXT_ID>
                  <CONTEXT_DESCRIPTION>main context</CONTEXT_DESCRIPTION>
                </CONTEXT>
              </CONTEXTS>
            </APPLICATION>
          </APPLICATIONS>
        </fx:MANUFACTURER-EXTENSION>
      </fx:ECU>
    </fx:ECUS>
    <fx:PDUS>
      <!-- ============== Message 64 ============== -->
      <fx:PDU ID="PDU_64_0">
        <ho:SHORT-NAME>PDU_64_0</ho:SHORT-NAME>
        <ho:DESC>direction</ho:DESC>
        <fx:BYTE-LENGTH>0</fx:BYTE-LENGTH>
        <fx:PDU-TYPE>OTHER</fx:PDU-TYPE>
      </fx:PDU>
      <fx:PDU ID="PDU_64_1">
        <ho:SHORT-NAME>PDU_64_1</ho:SHORT-NAME>
        <ho:DESC>speed: </ho:DESC>
        <fx:BYTE-LENGTH>0</fx:BYTE-LENGTH>
        <fx:PDU-TYPE>OTHER</fx:PDU-TYPE>
      </fx:PDU>
      <fx:PDU ID="PDU_64_2">
        <ho:SHORT-NAME>PDU_64_2</ho:SHORT-NAME>
        <fx:BYTE-LENGTH>8</fx:BYTE-LENGTH>
        <fx:PDU-TYPE>OTHER</fx:PDU-TYPE>
        <fx:SIGNAL-INSTANCES>
          <fx:SIGNAL-INSTANCE ID="S_64_0">
            <fx:SEQUENCE-NUMBER>0</fx:SEQUENCE-NUMBER>
            <fx:SIGNAL-REF ID-REF="S_SINT64"/>
          </fx:SIGNAL-INSTANCE>
        </fx:SIGNAL-INSTANCES>
      </fx:PDU>
      <fx:PDU ID="PDU_64_3">
        <ho:SHORT-NAME>PDU_64_3</ho:SHORT-NAME>
        <ho:DESC>heading: </ho:DESC>
        <fx:BYTE-LENGTH>0</fx:BYTE-LENGTH>
        <fx:PDU-TYPE>OTHER</fx:PDU-TYPE>
      </fx:PDU>
      <fx:PDU ID="PDU_64_4">
        <ho:SHORT-NAME>PDU_64_4</ho:SHORT-NAME>
        <fx:BYTE-LENGTH>8</fx:BYTE-LENGTH>
        <fx:PDU-TYPE>OTHER</fx:PDU-TYPE>
        <fx:SIGNAL-INSTANCES>
          <fx:SIGNAL-INSTANCE ID="S_64_1">
            <fx:SEQUENCE-NUMBER>0</fx:SEQUENCE-NUMBER>
            <fx:SIGNAL-REF ID-REF="S_SINT64"/>
          </fx:SIGNAL-INSTANCE>
        </fx:SIGNAL-INSTANCES>
      </fx:PDU>
      <!-- ============== Message 65 ============== -->
      <fx:PDU ID="PDU_65_0">
        <ho:SHORT-NAME>PDU_65_0</ho:SHORT-NAME>
        <ho:DESC>timeing: </ho:DESC>
        <fx:BYTE-LENGTH>0</fx:BYTE-LENGTH>
        <fx:PDU-TYPE>OTHER</fx:PDU-TYPE>
      </fx:PDU>
      <fx:PDU ID="PDU_65_1">
        <ho:SHORT-NAME>PDU_65_1</ho:SHORT-NAME>
        <ho:DESC>type: </ho:DESC>
        <fx:BYTE-LENGTH>0</fx:BYTE-LENGTH>
        <fx:PDU-TYPE>OTHER</fx:PDU-TYPE>
      </fx:PDU>
      <fx:PDU ID="PDU_65_2">
        <ho:SHORT-NAME>PDU_65_2</ho:SHORT-NAME>
        <fx:BYTE-LENGTH>4</fx:BYTE-LENGTH>
        <fx:PDU-TYPE>OTHER</fx:PDU-TYPE>
        <fx:SIGNAL-INSTANCES>
          <fx:SIGNAL-INSTANCE ID="S_65_0">
            <fx:SEQUENCE-NUMBER>0</fx:SEQUENCE-NUMBER>
            <fx:SIGNAL-REF ID-REF="S_UINT32"/>
          </fx:SIGNAL-INSTANCE>
        </fx:SIGNAL-INSTANCES>
      </fx:PDU>
      <fx:PDU ID="PDU_65_3">
        <ho:SHORT-NAME>PDU_65_3</ho:SHORT-NAME>
        <ho:DESC>contextId: </ho:DESC>
        <fx:BYTE-LENGTH>0</fx:BYTE-LENGTH>
        <fx:PDU-TYPE>OTHER</fx:PDU-TYPE>
      </fx:PDU>
      <fx:PDU ID="PDU_65_4">
        <ho:SHORT-NAME>PDU_65_4</ho:SHORT-NAME>
        <fx:BYTE-LENGTH>4</fx:BYTE-LENGTH>
        <fx:PDU-TYPE>OTHER</fx:PDU-TYPE>
        <fx:SIGNAL-INSTANCES>
          <fx:SIGNAL-INSTANCE ID="S_65_1">
            <fx:SEQUENCE-NUMBER>0</fx:SEQUENCE-NUMBER>
            <fx:SIGNAL-REF ID-REF="S_UINT32"/>
          </fx:SIGNAL-INSTANCE>
        </fx:SIGNAL-INSTANCES>
      </fx:PDU>
      <fx:PDU ID="PDU_65_5">
        <ho:SHORT-NAME>PDU_65_5</ho:SHORT-NAME>
        <ho:DESC>eventId: </ho:DESC>
        <fx:BYTE-LENGTH>0</fx:BYTE-LENGTH>
        <fx:PDU-TYPE>OTHER</fx:PDU-TYPE>
      </fx:PDU>
      <fx:PDU ID="PDU_65_6">
        <ho:SHORT-NAME>PDU_65_6</ho:SHORT-NAME>
        <fx:BYTE-LENGTH>4</fx:BYTE-LENGTH>
        <fx:PDU-TYPE>OTHER</fx:PDU-TYPE>
        <fx:SIGNAL-INSTANCES>
          <fx:SIGNAL-INSTANCE ID="S_65_2">
            <fx:SEQUENCE-NUMBER>0</fx:SEQUENCE-NUMBER>
            <fx:SIGNAL-REF ID-REF="S_UINT32"/>
          </fx:SIGNAL-INSTANCE>
        </fx:SIGNAL-INSTANCES>
      </fx:PDU>
      <fx:PDU ID="PDU_65_7">
        <ho:SHORT-NAME>PDU_65_7</ho:SHORT-NAME>
        <ho:DESC>ts: </ho:DESC>
        <fx:BYTE-LENGTH>0</fx:BYTE-LENGTH>
        <fx:PDU-TYPE>OTHER</fx:PDU-TYPE>
      </fx:PDU>
      <fx:PDU ID="PDU_65_8">
        <ho:SHORT-NAME>PDU_65_8</ho:SHORT-NAME>
        <fx:BYTE-LENGTH>8</fx:BYTE-LENGTH>
        <fx:PDU-TYPE>OTHER</fx:PDU-TYPE>
        <fx:SIGNAL-INSTANCES>
          <fx:SIGNAL-INSTANCE ID="S_65_3">
            <fx:SEQUENCE-NUMBER>0</fx:SEQUENCE-NUMBER>
            <fx:SIGNAL-REF ID-REF="S_UINT64"/>
          </fx:SIGNAL-INSTANCE>
        </fx:SIGNAL-INSTANCES>
      </fx:PDU>
      <fx:PDU ID="PDU_65_9">
        <ho:SHORT-NAME>PDU_65_9</ho:SHORT-NAME>
        <ho:DESC>threadId: </ho:DESC>
        <fx:BYTE-LENGTH>0</fx:BYTE-LENGTH>
        <fx:PDU-TYPE>OTHER</fx:PDU-TYPE>
      </fx:PDU>
      <fx:PDU ID="PDU_65_10">
        <ho:SHORT-NAME>PDU_65_10</ho:SHORT-NAME>
        <fx:BYTE-LENGTH>4</fx:BYTE-LENGTH>
        <fx:PDU-TYPE>OTHER</fx:PDU-TYPE>
        <fx:SIGNAL-INSTANCES>
          <fx:SIGNAL-INSTANCE ID="S_65_4">
            <fx:SEQUENCE-NUMBER>0</fx:SEQUENCE-NUMBER>
            <fx:SIGNAL-REF ID-REF="S_SINT32"/>
          </fx:SIGNAL-INSTANCE>
        </fx:SIGNAL-INSTANCES>
      </fx:PDU>
    </fx:PDUS>
    <fx:FRAMES>
      <fx:FRAME ID="ID_64">
        <ho:SHORT-NAME>direction</ho:SHORT-NAME>
        <fx:BYTE-LENGTH>16</fx:BYTE-LENGTH>
        <fx:FRAME-TYPE>OTHER</fx:FRAME-TYPE>
        <fx:PDU-INSTANCES>
          <fx:PDU-INSTANCE ID="P_64_0">
            <fx:PDU-REF ID-REF="PDU_64_0"/>
            <fx:SEQUENCE-NUMBER>0</fx:SEQUENCE-NUMBER>
          </fx:PDU-INSTANCE>
          <fx:PDU-INSTANCE ID="P_64_2">
            <fx:PDU-REF ID-REF="PDU_64_2"/>
            <fx:SEQUENCE-NUMBER>2</fx:SEQUENCE-NUMBER>
          </fx:PDU-INSTANCE>
          <fx:PDU-INSTANCE ID="P_64_1">
            <fx:PDU-REF ID-REF="PDU_64_1"/>
            <fx:SEQUENCE-NUMBER>1</fx:SEQUENCE-NUMBER>
          </fx:PDU-INSTANCE>
          <fx:PDU-INSTANCE ID="P_64_3">
            <fx:PDU-REF ID-REF="PDU_64_3"/>
            <fx:SEQUENCE-NUMBER>3</fx:SEQUENCE-NUMBER>
          </fx:PDU-INSTANCE>
          <fx:PDU-INSTANCE ID="P_64_4">
            <fx:PDU-REF ID-REF="PDU_64_4"/>
            <fx:SEQUENCE-NUMBER>4</fx:SEQUENCE-NUMBER>
          </fx:PDU-INSTANCE>
        </fx:PDU-INSTANCES>
        <fx:MANUFACTURER-EXTENSION>
          <MESSAGE_TYPE>DLT_TYPE_LOG</MESSAGE_TYPE>
          <MESSAGE_INFO>DLT_LOG_WARN</MESSAGE_INFO>
          <APPLICATION_ID>DR</APPLICATION_ID>
          <CONTEXT_ID>CTX1</CONTEXT_ID>
          <MESSAGE_SOURCE_FILE>dead_reckoning.cpp</MESSAGE_SOURCE_FILE>
          <MESSAGE_LINE_NUMBER>64</MESSAGE_LINE_NUMBER>
        </fx:MANUFACTURER-EXTENSION>
      </fx:FRAME>
      <fx:FRAME ID="ID_65">
        <ho:SHORT-NAME>timeing: </ho:SHORT-NAME>
        <fx:BYTE-LENGTH>24</fx:BYTE-LENGTH>
        <fx:FRAME-TYPE>OTHER</fx:FRAME-TYPE>
        <fx:PDU-INSTANCES>
          <fx:PDU-INSTANCE ID="P_65_0">
            <fx:PDU-REF ID-REF="PDU_65_0"/>
            <fx:SEQUENCE-NUMBER>0</fx:SEQUENCE-NUMBER>
          </fx:PDU-INSTANCE>
          <fx:PDU-INSTANCE ID="P_65_1">
            <fx:PDU-REF ID-REF="PDU_65_1"/>
            <fx:SEQUENCE-NUMBER>1</fx:SEQUENCE-NUMBER>
          </fx:PDU-INSTANCE>
          <fx:PDU-INSTANCE ID="P_65_2">
            <fx:PDU-REF ID-REF="PDU_65_2"/>
            <fx:SEQUENCE-NUMBER>2</fx:SEQUENCE-NUMBER>
          </fx:PDU-INSTANCE>
          <fx:PDU-INSTANCE ID="P_65_3">
            <fx:PDU-REF ID-REF="PDU_65_3"/>
            <fx:SEQUENCE-NUMBER>3</fx:SEQUENCE-NUMBER>
          </fx:PDU-INSTANCE>
          <fx:PDU-INSTANCE ID="P_65_4">
            <fx:PDU-REF ID-REF="PDU_65_4"/>
            <fx:SEQUENCE-NUMBER>4</fx:SEQUENCE-NUMBER>
          </fx:PDU-INSTANCE>
          <fx:PDU-INSTANCE ID="P_65_5">
            <fx:PDU-REF ID-REF="PDU_65_5"/>
            <fx:SEQUENCE-NUMBER>5</fx:SEQUENCE-NUMBER>
          </fx:PDU-INSTANCE>
          <fx:PDU-INSTANCE ID="P_65_6">
            <fx:PDU-REF ID-REF="PDU_65_6"/>
            <fx:SEQUENCE-NUMBER>6</fx:SEQUENCE-NUMBER>
          </fx:PDU-INSTANCE>
          <fx:PDU-INSTANCE ID="P_65_7">
            <fx:PDU-REF ID-REF="PDU_65_7"/>
            <fx:SEQUENCE-NUMBER>7</fx:SEQUENCE-NUMBER>
          </fx:PDU-INSTANCE>
          <fx:PDU-INSTANCE ID="P_65_8">
            <fx:PDU-REF ID-REF="PDU_65_8"/>
            <fx:SEQUENCE-NUMBER>8</fx:SEQUENCE-NUMBER>
          </fx:PDU-INSTANCE>
          <fx:PDU-INSTANCE ID="P_65_9">
            <fx:PDU-REF ID-REF="PDU_65_9"/>
            <fx:SEQUENCE-NUMBER>9</fx:SEQUENCE-NUMBER>
          </fx:PDU-INSTANCE>
          <fx:PDU-INSTANCE ID="P_65_10">
            <fx:PDU-REF ID-REF="PDU_65_10"/>
            <fx:SEQUENCE-NUMBER>10</fx:SEQUENCE-NUMBER>
          </fx:PDU-INSTANCE>
        </fx:PDU-INSTANCES>
        <fx:MANUFACTURER-EXTENSION>
          <MESSAGE_TYPE>DLT_TYPE_LOG</MESSAGE_TYPE>
          <MESSAGE_INFO>DLT_LOG_WARN</MESSAGE_INFO>
          <APPLICATION_ID>DR</APPLICATION_ID>
          <CONTEXT_ID>CTX1</CONTEXT_ID>
          <MESSAGE_SOURCE_FILE>dead_reckoning.cpp</MESSAGE_SOURCE_FILE>
          <MESSAGE_LINE_NUMBER>65</MESSAGE_LINE_NUMBER>
        </fx:MANUFACTURER-EXTENSION>
      </fx:FRAME>
    </fx:FRAMES>
  </fx:ELEMENTS>
</fx:FIBEX>
"#;

const ROBUSTNESS_XML: &str = r#"<?xml version="1.0" encoding="UTF-8"?>
<!DOCTYPE note>
<?target some instruction?>
<fx:FIBEX xmlns:fx="http://www.asam.net/xml/fbx" xmlns:ho="http://www.asam.net/xml">
  <fx:ELEMENTS>
    <fx:UNKNOWN-THING ID="U1"><![CDATA[ <not> xml ]]></fx:UNKNOWN-THING>
    <fx:PDUS>
      <fx:PDU ho:ID="PDU_1">
        <ho:SHORT-NAME>first &amp; only</ho:SHORT-NAME>
        <ho:DESC></ho:DESC>
        <fx:BYTE-LENGTH>+12</fx:BYTE-LENGTH>
        <fx:SIGNAL-INSTANCES>
          <fx:SIGNAL-INSTANCE ID="SI_2">
            <fx:SEQUENCE-NUMBER>7</fx:SEQUENCE-NUMBER>
            <fx:SIGNAL-REF ID-REF="S_FLOA16"></fx:SIGNAL-REF>
          </fx:SIGNAL-INSTANCE>
          <fx:SIGNAL-INSTANCE ID="SI_1">
            <fx:SEQUENCE-NUMBER>3</fx:SEQUENCE-NUMBER>
            <fx:SIGNAL-REF ID-REF="SIG_CODED"/>
          </fx:SIGNAL-INSTANCE>
          <fx:SIGNAL-INSTANCE ID="SI_3">
            <fx:SEQUENCE-NUMBER>7</fx:SEQUENCE-NUMBER>
            <fx:SIGNAL-REF ID-REF="S_NO_SUCH_SIGNAL"/>
          </fx:SIGNAL-INSTANCE>
          <fx:SIGNAL-INSTANCE ID="SI_4">
            <fx:SEQUENCE-NUMBER>9</fx:SEQUENCE-NUMBER>
            <fx:SIGNAL-REF ID-REF="S_STRG_UTF8"/>
          </fx:SIGNAL-INSTANCE>
        </fx:SIGNAL-INSTANCES>
      </fx:PDU>
      <fx:PDU ID="PDU_1">
        <fx:BYTE-LENGTH>1</fx:BYTE-LENGTH>
        <ho:DESC>a second PDU of the same id loses</ho:DESC>
      </fx:PDU>
    </fx:PDUS>
    <fx:FRAMES>
      <fx:FRAME ID="ID_1">
        <ho:SHORT-NAME>frame</ho:SHORT-NAME>
        <fx:BYTE-LENGTH>12</fx:BYTE-LENGTH>
        <fx:PDU-INSTANCES>
          <fx:PDU-INSTANCE ID="PI_1">
            <fx:PDU-REF ID-REF="PDU_1"/>
            <fx:SEQUENCE-NUMBER>0</fx:SEQUENCE-NUMBER>
          </fx:PDU-INSTANCE>
        </fx:PDU-INSTANCES>
      </fx:FRAME>
      <fx:FRAME ID="ID_1">
        <ho:SHORT-NAME>a second frame of the same id loses</ho:SHORT-NAME>
        <fx:BYTE-LENGTH>12</fx:BYTE-LENGTH>
      </fx:FRAME>
    </fx:FRAMES>
    <fx:SIGNALS>
      <fx:SIGNAL ID="SIG_CODED">
        <ho:SHORT-NAME>coded</ho:SHORT-NAME>
        <fx:CODING-REF ID-REF="CODING_1"/>
      </fx:SIGNAL>
    </fx:SIGNALS>
    <fx:PROCESSING-INFORMATION>
      <fx:CODINGS>
        <fx:CODING ID="CODING_1">
          <ho:SHORT-NAME>coding</ho:SHORT-NAME>
          <ho:CODED-TYPE ho:BASE-DATA-TYPE="A_UINT8" CATEGORY="STANDARD-LENGTH-TYPE">
            <ho:BIT-LENGTH>8</ho:BIT-LENGTH>
          </ho:CODED-TYPE>
        </fx:CODING>
      </fx:CODINGS>
    </fx:PROCESSING-INFORMATION>
  </fx:ELEMENTS>
</fx:FIBEX>
"#;

fn plain(kind: TypeInfoKind) -> TypeInfo {
    TypeInfo {
        kind,
        coding: ASCII,
        has_variable_info: false,
        has_trace_info: false,
    }
}

fn text_pdu(description: &str) -> PduMetadata {
    PduMetadata {
        description: Some(description.to_string()),
        signal_types: [].to_vec(),
    }
}

fn value_pdu(kind: TypeInfoKind) -> PduMetadata {
    PduMetadata {
        description: None,
        signal_types: [plain(kind)].to_vec(),
    }
}

fn frame_64() -> FrameMetadata {
    FrameMetadata {
        short_name: "direction".to_string(),
        pdus: vec![
            text_pdu("direction"),
            text_pdu("speed: "),
            value_pdu(Signed(BitLength64)),
            text_pdu("heading: "),
            value_pdu(Signed(BitLength64)),
        ],
        application_id: Some("DR".to_string()),
        context_id: Some("CTX1".to_string()),
        message_type: Some("DLT_TYPE_LOG".to_string()),
        message_info: Some("DLT_LOG_WARN".to_string()),
    }
}

fn frame_65() -> FrameMetadata {
    FrameMetadata {
        short_name: "timeing: ".to_string(),
        pdus: vec![
            text_pdu("timeing: "),
            text_pdu("type: "),
            value_pdu(Unsigned(BitLength32)),
            text_pdu("contextId: "),
            value_pdu(Unsigned(BitLength32)),
            text_pdu("eventId: "),
            value_pdu(Unsigned(BitLength32)),
            text_pdu("ts: "),
            value_pdu(Unsigned(BitLength64)),
            text_pdu("threadId: "),
            value_pdu(Signed(BitLength32)),
        ],
        application_id: Some("DR".to_string()),
        context_id: Some("CTX1".to_string()),
        message_type: Some("DLT_TYPE_LOG".to_string()),
        message_info: Some("DLT_LOG_WARN".to_string()),
    }
}

fn dlt_messages() -> FibexMetadata {
    read_fibexes(&vec![DLT_MESSAGES_XML.as_bytes().to_vec()]).expect("can't parse fibex")
}

#[test]
fn test_fibex_parsing() {
    let fibex = dlt_messages();

    assert_eq!(2, fibex.frame_map_with_key.len());
    let key_65 = FrameMetadataIdentification {
        context_id: "CTX1".to_string(),
        app_id: "DR".to_string(),
        frame_id: "ID_65".to_string(),
    };
    assert_eq!(
        Some(&frame_65()),
        fibex.frame_map_with_key.get(key_65.key().as_str())
    );
    let key_64 = FrameMetadataIdentification {
        context_id: "CTX1".to_string(),
        app_id: "DR".to_string(),
        frame_id: "ID_64".to_string(),
    };
    assert_eq!(
        Some(&frame_64()),
        fibex.frame_map_with_key.get(key_64.key().as_str())
    );
    assert_eq!(2, fibex.frame_map.len());
    assert_eq!(Some(&frame_64()), fibex.frame_map.get("ID_64"));
    assert_eq!(Some(&frame_65()), fibex.frame_map.get("ID_65"));
}

#[test]
fn test_fibex_robustness() {
    let fibex =
        read_fibexes(&vec![ROBUSTNESS_XML.as_bytes().to_vec()]).expect("can't parse fibex");

    println!("{:?}", fibex.frame_map.get("ID_1"));
}

#[test]
fn robust_document_gives_the_first_of_equal_ids() {
    let fibex =
        read_fibexes(&vec![ROBUSTNESS_XML.as_bytes().to_vec()]).expect("can't parse fibex");
    assert_eq!(1, fibex.frame_map.len());
    assert_eq!(0, fibex.frame_map_with_key.len());
    let expected = FrameMetadata {
        short_name: "frame".to_string(),
        pdus: vec![PduMetadata {
            description: None,
            // sequence numbers 3, 7, 7, 9: the coded signal, the float that is
            // not supported, the unknown signal, the UTF-8 string
            signal_types: vec![
                plain(Unsigned(BitLength8)),
                TypeInfo {
                    kind: TypeInfoKind::StringType,
                    coding: UTF8,
                    has_variable_info: false,
                    has_trace_info: false,
                },
            ],
        }],
        application_id: None,
        context_id: None,
        message_type: None,
        message_info: None,
    };
    assert_eq!(Some(&expected), fibex.frame_map.get("ID_1"));
}

fn extended_header(app: &str, ctx: &str) -> ExtendedHeader {
    ExtendedHeader {
        verbose: false,
        argument_count: 0,
        message_type: MessageType::from_msin(0x30),
        application_id: app.to_string(),
        context_id: ctx.to_string(),
    }
}

#[test]
fn extract_metadata_uses_keyed_map_with_extended_header() {
    let fibex = dlt_messages();
    let header = extended_header("DR", "CTX1");
    assert_eq!(
        Some(&frame_64()),
        extract_metadata(&fibex, 64, Some(&header))
    );
    assert_eq!(Some(&frame_64()), extract_metadata(&fibex, 64, None));
    assert_eq!(
        Some(&frame_65()),
        extract_metadata(&fibex, 65, Some(&header))
    );
    let other = extended_header("DR", "CTX2");
    assert_eq!(None, extract_metadata(&fibex, 64, Some(&other)));
    let swapped = extended_header("CTX1", "DR");
    assert_eq!(None, extract_metadata(&fibex, 64, Some(&swapped)));
    assert_eq!(None, extract_metadata(&fibex, 66, Some(&header)));
    assert_eq!(None, extract_metadata(&fibex, 66, None));
    assert_eq!(None, extract_metadata(&fibex, 6, None));
}

#[test]
fn frame_key_separates_the_ids() {
    assert_eq!("++++:++:CTX1DRID_64", frame_key("CTX1", "DR", "ID_64"));
    assert_eq!("::", frame_key("", "", ""));
    assert_ne!(frame_key("AB", "C", "D"), frame_key("A", "BC", "D"));
    assert_ne!(frame_key("A\0B", "C", "D"), frame_key("A", "B\0C", "D"));
    assert_ne!(frame_key("+", ":", ""), frame_key("", "", "+:"));
}

#[test]
fn gather_fibex_data_gives_no_model_of_nothing() {
    assert!(gather_fibex_data(&vec![]).is_none());
    assert!(gather_fibex_data(&vec![b"<a><b></a>".to_vec()]).is_none());
    let model = gather_fibex_data(&vec![DLT_MESSAGES_XML.as_bytes().to_vec()]).expect("model");
    assert_eq!(2, model.frame_map.len());
}

#[test]
fn documents_are_combined() {
    let pdus = br#"<PDUS><PDU ID="P"><BYTE-LENGTH>1</BYTE-LENGTH>
        <SIGNAL-INSTANCE ID="I"><SEQUENCE-NUMBER>1</SEQUENCE-NUMBER><SIGNAL-REF ID-REF="S"/></SIGNAL-INSTANCE>
        </PDU></PDUS>"#;
    let frames = br#"<FRAMES><FRAME ID="ID_7"><SHORT-NAME>seven</SHORT-NAME><BYTE-LENGTH>1</BYTE-LENGTH>
        <PDU-INSTANCE ID="I"><PDU-REF ID-REF="P"/><SEQUENCE-NUMBER>1</SEQUENCE-NUMBER></PDU-INSTANCE>
        <MANUFACTURER-EXTENSION><APPLICATION_ID>APP</APPLICATION_ID><CONTEXT_ID>CON</CONTEXT_ID></MANUFACTURER-EXTENSION>
        </FRAME></FRAMES>"#;
    let codings = br#"<X><SIGNAL ID="S"><CODING-REF ID-REF="C"/></SIGNAL>
        <CODING ID="C"><CODED-TYPE BASE-DATA-TYPE="A_FLOAT64"/></CODING></X>"#;
    let model = read_fibexes(&vec![frames.to_vec(), codings.to_vec(), pdus.to_vec()])
        .expect("can't parse fibex");
    let expected = FrameMetadata {
        short_name: "seven".to_string(),
        pdus: vec![value_pdu(TypeInfoKind::Float(FloatWidth::Width64))],
        application_id: Some("APP".to_string()),
        context_id: Some("CON".to_string()),
        message_type: None,
        message_info: None,
    };
    let header = extended_header("APP", "CON");
    assert_eq!(Some(&expected), extract_metadata(&model, 7, Some(&header)));
    assert_eq!(Some(&expected), extract_metadata(&model, 7, None));
}

fn kind_of(document: &[u8]) -> &'static str {
    match read_fibexes(&vec![document.to_vec()]) {
        Ok(_) => "ok",
        Err(Error::FibexStructure(_)) => "structure",
        Err(Error::Parse(_)) => "parse",
        Err(Error::Xml(_)) => "xml",
        Err(Error::Attribute(_)) => "attribute",
        Err(Error::Io(_)) => "io",
    }
}

#[test]
fn errors_halt_the_load() {
    assert_eq!("ok", kind_of(b""));
    // a frame that refers to an unknown PDU
    assert_eq!(
        "structure",
        kind_of(
            br#"<FRAME ID="ID_1"><SHORT-NAME>n</SHORT-NAME><BYTE-LENGTH>1</BYTE-LENGTH>
            <PDU-INSTANCE ID="I"><PDU-REF ID-REF="NONE"/><SEQUENCE-NUMBER>1</SEQUENCE-NUMBER></PDU-INSTANCE></FRAME>"#
        )
    );
    // mandatory attributes and tags
    assert_eq!("structure", kind_of(br#"<PDU><BYTE-LENGTH>1</BYTE-LENGTH></PDU>"#));
    assert_eq!("structure", kind_of(br#"<PDU ID="P"></PDU>"#));
    assert_eq!(
        "structure",
        kind_of(br#"<FRAME ID="F"><BYTE-LENGTH>1</BYTE-LENGTH></FRAME>"#)
    );
    assert_eq!(
        "structure",
        kind_of(br#"<FRAME ID="F"><SHORT-NAME>n</SHORT-NAME></FRAME>"#)
    );
    assert_eq!(
        "structure",
        kind_of(br#"<PDU ID="P"><SIGNAL-INSTANCE ID="I"><SIGNAL-REF ID-REF="S"/></SIGNAL-INSTANCE>"#)
    );
    assert_eq!(
        "structure",
        kind_of(br#"<SIGNAL ID="S"></SIGNAL>"#)
    );
    assert_eq!("structure", kind_of(br#"<CODING ID="C"></CODING>"#));
    assert_eq!("structure", kind_of(br#"<SIGNAL-REF/>"#));
    // a document that ends inside a PDU or a frame
    assert_eq!("structure", kind_of(br#"<PDU ID="P"><BYTE-LENGTH>1</BYTE-LENGTH>"#));
    assert_eq!("structure", kind_of(br#"<FRAME ID="F">"#));
    // numbers
    assert_eq!("parse", kind_of(br#"<BYTE-LENGTH>twelve</BYTE-LENGTH>"#));
    assert_eq!("parse", kind_of(br#"<BYTE-LENGTH> 12</BYTE-LENGTH>"#));
    assert_eq!("parse", kind_of(br#"<BYTE-LENGTH>-1</BYTE-LENGTH>"#));
    assert_eq!(
        "parse",
        kind_of(br#"<SEQUENCE-NUMBER>99999999999999999999999999</SEQUENCE-NUMBER>"#)
    );
    // text that is missing
    assert_eq!("parse", kind_of(br#"<SHORT-NAME></SHORT-NAME>"#));
    assert_eq!("parse", kind_of(br#"<SHORT-NAME><b/></SHORT-NAME>"#));
    // XML that is broken
    assert_eq!("xml", kind_of(br#"<a></b>"#));
    assert_eq!("xml", kind_of(br#"<SHORT-NAME>&nosuchentity;</SHORT-NAME>"#));
    assert_eq!("xml", kind_of(br#"<PDU ID="&nosuchentity;">"#));
    assert_eq!("attribute", kind_of(br#"<PDU broken ID="P">"#));
    // an attribute in front of the broken one is found
    assert_eq!("structure", kind_of(br#"<PDU ID="P" broken>"#));
}

#[test]
fn structural_errors_carry_line_and_column() {
    let document = b"<a>\n  <b>\n    <PDU ID=\"P\"></PDU>\n  </b>\n</a>";
    match read_fibexes(&vec![document.to_vec()]) {
        Err(Error::FibexStructure(text)) => {
            assert_eq!(
                "required BYTE-LENGTH tag is missing for PDU at (3, 22)",
                text
            );
        }
        _ => panic!("unexpected result"),
    }
}

#[test]
fn line_and_column_count_from_the_last_line_feed() {
    let text = b"ab\ncde\n\nf";
    assert_eq!((1, 0), line_and_column(text, 0));
    assert_eq!((1, 2), line_and_column(text, 2));
    assert_eq!((2, 0), line_and_column(text, 3));
    assert_eq!((2, 3), line_and_column(text, 6));
    assert_eq!((4, 0), line_and_column(text, 8));
    assert_eq!((4, 1), line_and_column(text, 9));
    assert_eq!((1, 0), line_and_column(text, 10));
}

#[test]
fn parse_usize_reads_decimal_numbers() {
    assert_eq!(Some(0), parse_usize("0"));
    assert_eq!(Some(12), parse_usize("12"));
    assert_eq!(Some(12), parse_usize("+12"));
    assert_eq!(Some(7), parse_usize("007"));
    assert_eq!(Some(usize::MAX), parse_usize(&usize::MAX.to_string()));
    assert_eq!(None, parse_usize(""));
    assert_eq!(None, parse_usize("+"));
    assert_eq!(None, parse_usize("-1"));
    assert_eq!(None, parse_usize("1 "));
    assert_eq!(None, parse_usize("0x10"));
    assert_eq!(None, parse_usize("++1"));
    let mut too_large = usize::MAX.to_string();
    too_large.push('0');
    assert_eq!(None, parse_usize(&too_large));
    let last = too_large.len() - 2;
    let mut one_more = usize::MAX.to_string();
    one_more.replace_range(last.., "6");
    assert_eq!("18446744073709551616".len(), one_more.len());
    assert_eq!(
        one_more.parse::<usize>().ok(),
        parse_usize(&one_more)
    );
}

#[test]
fn decimal_text_writes_decimal_numbers() {
    assert_eq!("0", decimal_text(0));
    assert_eq!("9", decimal_text(9));
    assert_eq!("10", decimal_text(10));
    assert_eq!("4294967295", decimal_text(4294967295));
    assert_eq!(usize::MAX.to_string(), decimal_text(usize::MAX));
}

#[test]
fn attribute_names_match_bare_or_after_a_colon() {
    assert!(attribute_matches(b"ID", b"ID"));
    assert!(attribute_matches(b"ho:ID", b"ID"));
    assert!(attribute_matches(b":ID", b"ID"));
    assert!(!attribute_matches(b"hoID", b"ID"));
    assert!(!attribute_matches(b"ID-REF", b"ID"));
    assert!(!attribute_matches(b"I", b"ID"));
    assert!(!attribute_matches(b"ho:id", b"ID"));
}

fn attribute(key: &str, value: &str) -> Result<XmlAttribute, String> {
    Ok(XmlAttribute {
        key: key.as_bytes().to_vec(),
        value: Ok(value.to_string()),
    })
}

#[test]
fn attr_opt_takes_the_first_match() {
    let attributes = vec![
        attribute("ID-REF", "ref"),
        attribute("x:ID", "first"),
        attribute("ID", "second"),
        Err("broken".to_string()),
    ];
    assert_eq!(Ok(Some("first".to_string())), attr_opt(&attributes, "ID"));
    assert_eq!(Ok(Some("ref".to_string())), attr_opt(&attributes, "ID-REF"));
    assert_eq!(
        Err(Error::Attribute("broken".to_string())),
        attr_opt(&attributes, "NAME")
    );
    assert_eq!(Ok(None), attr_opt(&attributes[..3].iter().map(|a| match a {
        Ok(a) => attribute(std::str::from_utf8(&a.key).unwrap(), a.value.as_ref().unwrap()),
        Err(e) => Err(e.clone()),
    }).collect(), "NAME"));
    let unreadable = vec![Ok(XmlAttribute {
        key: b"ID".to_vec(),
        value: Err("no such entity".to_string()),
    })];
    assert_eq!(
        Err(Error::Xml("no such entity".to_string())),
        attr_opt(&unreadable, "ID")
    );
}

#[test]
fn xml_tokens_are_complete_and_plain() {
    let items: Vec<XmlItem> = xml_tokens(b"<a x=\"1 &lt; 2\">t &amp; u<b:c/></a>");
    let tokens: Vec<&XmlToken> = items.iter().map(|i| &i.token).collect();
    assert_eq!(
        vec![
            &XmlToken::Start(b"a".to_vec(), vec![attribute("x", "1 < 2")]),
            &XmlToken::Text(Ok("t & u".to_string())),
            &XmlToken::Empty(b"c".to_vec(), vec![]),
            &XmlToken::End(b"a".to_vec()),
            &XmlToken::Eof,
        ],
        tokens
    );
    let positions: Vec<usize> = items.iter().map(|i| i.position).collect();
    assert_eq!(vec![16, 25, 31, 35, 35], positions);

    let items: Vec<XmlItem> = xml_tokens(b"<a></b>");
    assert_eq!(2, items.len());
    assert!(matches!(items[1].token, XmlToken::Failure(_)));
}

#[test]
fn signal_types_come_from_the_table_or_the_coding() {
    let mut signals = vstd::hash_map::StringHashMap::new();
    let mut codings = vstd::hash_map::StringHashMap::new();
    signals.insert("SIG".to_string(), "COD".to_string());
    signals.insert("LOST".to_string(), "NOWHERE".to_string());
    signals.insert("ODD".to_string(), "ODD_CODING".to_string());
    signals.insert("S_BOOL".to_string(), "COD".to_string());
    codings.insert("COD".to_string(), "A_INT16".to_string());
    codings.insert("ODD_CODING".to_string(), "A_BYTEFIELD".to_string());
    assert_eq!(
        Some(plain(TypeInfoKind::Bool)),
        type_info_for_signal_ref("S_BOOL", &signals, &codings)
    );
    assert_eq!(
        Some(plain(TypeInfoKind::Raw)),
        type_info_for_signal_ref("S_RAWD", &signals, &codings)
    );
    assert_eq!(
        Some(plain(TypeInfoKind::Raw)),
        type_info_for_signal_ref("S_RAW", &signals, &codings)
    );
    assert_eq!(
        Some(plain(TypeInfoKind::Float(FloatWidth::Width32))),
        type_info_for_signal_ref("S_FLOA32", &signals, &codings)
    );
    assert_eq!(None, type_info_for_signal_ref("S_FLOA16", &signals, &codings));
    assert_eq!(
        Some(plain(Signed(dlt_core::dlt::TypeLength::BitLength16))),
        type_info_for_signal_ref("SIG", &signals, &codings)
    );
    assert_eq!(None, type_info_for_signal_ref("LOST", &signals, &codings));
    assert_eq!(None, type_info_for_signal_ref("ODD", &signals, &codings));
    assert_eq!(None, type_info_for_signal_ref("UNKNOWN", &signals, &codings));
}

#[test]
fn values_by_sequence_number_is_a_stable_sort() {
    let entries = vec![
        (5, "e".to_string()),
        (1, "a".to_string()),
        (3, "c".to_string()),
        (1, "b".to_string()),
        (3, "d".to_string()),
        (0, "z".to_string()),
    ];
    assert_eq!(
        vec!["z", "a", "b", "c", "d", "e"],
        values_by_sequence_number(entries)
    );
    assert_eq!(Vec::<String>::new(), values_by_sequence_number(vec![]));
}

#[test]
fn fibex_errors_describe_themselves() {
    assert_eq!(
        "Fibex structure wrong: why",
        Error::FibexStructure("why".to_string()).message()
    );
    assert_eq!("Problems parsing: why", Error::Parse("why".to_string()).message());
    assert_eq!("XML error: why", Error::Xml("why".to_string()).message());
    assert_eq!(
        "Attribute error: why",
        Error::Attribute("why".to_string()).message()
    );
    assert_eq!("IO error: why", Error::Io("why".to_string()).message());
}

#[test]
fn attributes_keep_their_order_and_their_errors() {
    let items: Vec<XmlItem> = xml_tokens(b"<a p:k=\"&quot;v&quot;\" l=\"&nothing;\" m=\"\"/>");
    match &items[0].token {
        XmlToken::Empty(name, attributes) => {
            assert_eq!(b"a".to_vec(), *name);
            assert_eq!(3, attributes.len());
            assert_eq!(attribute("p:k", "\"v\""), attributes[0]);
            match &attributes[1] {
                Ok(second) => {
                    assert_eq!(b"l".to_vec(), second.key);
                    assert!(second.value.is_err());
                }
                Err(_) => panic!("the attribute can be read"),
            }
            assert_eq!(attribute("m", ""), attributes[2]);
        }
        _ => panic!("a tag without content"),
    }
}

#[test]
fn gather_fibex_data_gives_the_model_of_all_documents_or_none() {
    let good = DLT_MESSAGES_XML.as_bytes().to_vec();
    let bad = b"<a><b></a>".to_vec();
    let empty = b"".to_vec();

    let model = gather_fibex_data(&vec![good.clone(), empty.clone()]).expect("model");
    let same = read_fibexes(&vec![good.clone(), empty.clone()]).expect("model");
    assert_eq!(same.frame_map.len(), model.frame_map.len());
    assert_eq!(
        extract_metadata(&same, 64, None),
        extract_metadata(&model, 64, None)
    );
    assert!(extract_metadata(&model, 64, None).is_some());

    // one document that cannot be read leaves no model, wherever it stands
    assert!(gather_fibex_data(&vec![good.clone(), bad.clone()]).is_none());
    assert!(gather_fibex_data(&vec![bad.clone(), good.clone()]).is_none());
    assert!(read_fibexes(&vec![good, bad]).is_err());
}

#[test]
fn token_lists_of_documents_are_complete() {
    assert!(is_complete(&xml_tokens(b"")));
    assert!(is_complete(&xml_tokens(b"<a>text</a>")));
    assert!(is_complete(&xml_tokens(b"<a></b>")));
    assert!(is_complete(&xml_tokens(b"<a")));

    let end = |position: usize| XmlItem {
        token: XmlToken::Eof,
        position,
    };
    let tag = |position: usize| XmlItem {
        token: XmlToken::End(b"a".to_vec()),
        position,
    };
    let failure = |position: usize| XmlItem {
        token: XmlToken::Failure("why".to_string()),
        position,
    };
    assert!(!is_complete(&vec![]));
    assert!(!is_complete(&vec![tag(1)]));
    assert!(!is_complete(&vec![end(1), tag(2)]));
    assert!(!is_complete(&vec![end(1), end(1)]));
    assert!(!is_complete(&vec![failure(1), end(1)]));
    assert!(is_complete(&vec![tag(1), end(1)]));
    assert!(is_complete(&vec![tag(1), failure(1)]));
    assert!(is_complete(&vec![end(0)]));
}

#[test]
fn the_model_is_that_of_the_tokens() {
    let document = DLT_MESSAGES_XML.as_bytes().to_vec();
    let tokens = xml_tokens(&document);
    let model = model_of_tokens(&vec![tokens], &vec![document.clone()]).expect("model");
    let same = read_fibexes(&vec![document.clone()]).expect("model");
    assert_eq!(
        extract_metadata(&same, 64, None),
        extract_metadata(&model, 64, None)
    );
    assert_eq!(same.frame_map.len(), model.frame_map.len());
    assert_eq!(
        same.frame_map_with_key.len(),
        model.frame_map_with_key.len()
    );

    // no tokens, no frames
    let model = model_of_tokens(&vec![], &vec![]).expect("model");
    assert_eq!(0, model.frame_map.len());

    // tokens without an end are no document
    let cut = vec![XmlItem {
        token: XmlToken::End(b"a".to_vec()),
        position: 4,
    }];
    assert!(matches!(
        model_of_tokens(&vec![cut], &vec![b"</a>".to_vec()]),
        Err(Error::Xml(_))
    ));

    // the first error ends the reading, also where the bytes are not at hand
    let bad = xml_tokens(b"<PDU></PDU>");
    let good = xml_tokens(&document);
    assert!(matches!(
        model_of_tokens(&vec![good, bad], &vec![]),
        Err(Error::FibexStructure(_))
    ));
}

#[test]
fn notes_name_what_the_model_passes_over() {
    let first = br#"<X>
        <PDU ID="P"><BYTE-LENGTH>1</BYTE-LENGTH>
        <SIGNAL-INSTANCE ID="I"><SEQUENCE-NUMBER>2</SEQUENCE-NUMBER><SIGNAL-REF ID-REF="S_FLOA16"/></SIGNAL-INSTANCE>
        <SIGNAL-INSTANCE ID="J"><SEQUENCE-NUMBER>1</SEQUENCE-NUMBER><SIGNAL-REF ID-REF="S_UINT8"/></SIGNAL-INSTANCE>
        <SIGNAL-INSTANCE ID="K"><SEQUENCE-NUMBER>3</SEQUENCE-NUMBER><SIGNAL-REF ID-REF="S_NONE"/></SIGNAL-INSTANCE>
        </PDU>
        <PDU ID="Q"><BYTE-LENGTH>1</BYTE-LENGTH></PDU>
        <FRAME ID="ID_1"><SHORT-NAME>one</SHORT-NAME><BYTE-LENGTH>1</BYTE-LENGTH>
        <PDU-INSTANCE ID="I"><PDU-REF ID-REF="P"/><SEQUENCE-NUMBER>1</SEQUENCE-NUMBER></PDU-INSTANCE>
        </FRAME></X>"#
        .to_vec();
    let second = br#"<X>
        <PDU ID="P"><BYTE-LENGTH>1</BYTE-LENGTH>
        <SIGNAL-INSTANCE ID="I"><SEQUENCE-NUMBER>1</SEQUENCE-NUMBER><SIGNAL-REF ID-REF="S_FLOA16"/></SIGNAL-INSTANCE>
        </PDU>
        <PDU ID="P"><BYTE-LENGTH>1</BYTE-LENGTH></PDU>
        <FRAME ID="ID_1"><SHORT-NAME>other</SHORT-NAME><BYTE-LENGTH>1</BYTE-LENGTH></FRAME>
        <FRAME ID="ID_2"><SHORT-NAME>two</SHORT-NAME><BYTE-LENGTH>1</BYTE-LENGTH></FRAME>
        </X>"#
        .to_vec();
    let documents = vec![first, second];
    let tokens = documents.iter().map(|d| xml_tokens(d)).collect();
    let gathered = gather_tokens(&tokens, &documents).expect("gathered");
    assert_eq!(
        LoadNotes {
            duplicate_pdus: vec!["P".to_string(), "P".to_string()],
            duplicate_frames: vec!["ID_1".to_string()],
            skipped_signals: vec!["S_FLOA16".to_string(), "S_NONE".to_string()],
        },
        load_notes(&gathered)
    );

    // the model keeps the first of each
    let model = build_model(&gathered).expect("model");
    assert_eq!(2, model.frame_map.len());
    let one = extract_metadata(&model, 1, None).expect("frame");
    assert_eq!("one", one.short_name);
    assert_eq!(1, one.pdus.len());
    assert_eq!(
        vec![plain(TypeInfoKind::Unsigned(BitLength8))],
        one.pdus[0].signal_types
    );

    // nothing to tell of a plain document
    let documents = vec![DLT_MESSAGES_XML.as_bytes().to_vec()];
    let tokens = documents.iter().map(|d| xml_tokens(d)).collect();
    let gathered = gather_tokens(&tokens, &documents).expect("gathered");
    let notes = load_notes(&gathered);
    assert!(notes.duplicate_pdus.is_empty());
    assert!(notes.duplicate_frames.is_empty());
}
