use coiot::correlate::label_for;
use coiot::fields::{decode_validity, read_u16_le};
use coiot::identity::{id_device_serial, id_device_type, id_version, version_from_tag};
use coiot::json::{schema_error, text_eq};
use coiot::model::{decode_ids, decode_texts};
use coiot::observer::{COIOT_PORT, STATUS_PUSH_CODE};
use coiot::response::{GLOBAL_DEV_ID, STATUS_SERIAL, STATUS_VALIDITY};
use coiot::{
    classify_datagram, classify_response, parse_identity, Announcement, BlockDesc, CoIoTOption,
    DecodeError, Description, Json, JsonNumber, Rendered, Response, SenDesc, SenType, Status,
    StatusEntry, Version,
};
use coap_lite::{CoapOption, MessageClass, Packet, ResponseType};

fn num(n: u64) -> Json {
    Json::Number(JsonNumber { text: n.to_string(), unsigned: Some(n) })
}

fn float(text: &str) -> Json {
    Json::Number(JsonNumber { text: text.to_string(), unsigned: None })
}

fn text(s: &str) -> Json {
    Json::Str(s.to_string())
}

fn obj(members: Vec<(&str, Json)>) -> Json {
    Json::Object(members.into_iter().map(|(k, v)| (k.to_string(), v)).collect())
}

fn relay_descriptor() -> Json {
    obj(vec![
        ("blk", Json::Array(vec![obj(vec![("I", num(1)), ("D", text("Relay"))])])),
        (
            "sen",
            Json::Array(vec![obj(vec![
                ("I", num(10)),
                ("D", text("Power")),
                ("T", text("P")),
                ("U", text("W")),
                ("L", num(1)),
            ])]),
        ),
    ])
}

fn sensor_linked_to(links: Json) -> Json {
    obj(vec![
        (
            "blk",
            Json::Array(vec![
                obj(vec![("I", num(1)), ("D", text("Relay0"))]),
                obj(vec![("I", num(2)), ("D", text("Relay1"))]),
                obj(vec![("I", num(3)), ("D", text("Meter"))]),
            ]),
        ),
        (
            "sen",
            Json::Array(vec![obj(vec![
                ("I", num(7)),
                ("D", text("Output")),
                ("T", text("S")),
                ("L", links),
            ])]),
        ),
    ])
}

fn entry(id: u32, value: &str) -> StatusEntry {
    StatusEntry { channel: 0, id, value: value.to_string() }
}

fn reading(r: Rendered) -> coiot::Reading {
    match r {
        Rendered::Reading(x) => x,
        other => panic!("expected a reading, got {:?}", other),
    }
}

#[test]
fn identity_splits_three_fields() {
    let d = parse_identity("SHSW-25#ABC123#2").unwrap();
    assert_eq!(d.device_type, "SHSW-25");
    assert_eq!(d.device_serial, "ABC123");
    assert_eq!(d.version, Version::V2);
    assert_eq!(parse_identity("a#b#1").unwrap().version, Version::V1);
    assert_eq!(parse_identity("a#b#42").unwrap().version, Version::Unknown(42));
}

#[test]
fn identity_with_extra_separator_uses_first_second_and_last() {
    let d = parse_identity("t#s#x#1").unwrap();
    assert_eq!(d.device_type, "t");
    assert_eq!(d.device_serial, "s");
    assert_eq!(d.version, Version::V1);
}

#[test]
fn identity_round_trip() {
    for id in ["SHSW-25#ABC123#2", "t#s#x#7", "##1", "é#ü#+3"] {
        let d = parse_identity(id).unwrap();
        let tag = id.rsplit_once('#').unwrap().1;
        let joined = format!("{}#{}#{}", d.device_type, d.device_serial, tag);
        let e = parse_identity(&joined).unwrap();
        assert_eq!(e.device_type, d.device_type);
        assert_eq!(e.device_serial, d.device_serial);
        assert_eq!(e.version, d.version);
    }
}

#[test]
fn malformed_identity_is_an_error() {
    assert_eq!(parse_identity("onlyonehash#nosecond").unwrap_err(), DecodeError::MalformedIdentity);
    assert_eq!(parse_identity("nohash").unwrap_err(), DecodeError::MalformedIdentity);
    assert_eq!(parse_identity("a#b#x").unwrap_err(), DecodeError::MalformedIdentity);
    assert_eq!(id_device_type("onlyonehash#nosecond"), Some("onlyonehash".to_string()));
    assert_eq!(id_device_serial("onlyonehash#nosecond"), None);
    assert_eq!(id_version("onlyonehash#nosecond"), None);
    assert_eq!(id_version("a#7"), Some(Version::Unknown(7)));
}

#[test]
fn version_tags() {
    assert_eq!(version_from_tag("1"), Some(Version::V1));
    assert_eq!(version_from_tag("2"), Some(Version::V2));
    assert_eq!(version_from_tag("3"), Some(Version::Unknown(3)));
    assert_eq!(version_from_tag("+9"), Some(Version::Unknown(9)));
    assert_eq!(version_from_tag("4294967295"), Some(Version::Unknown(u32::MAX)));
    assert_eq!(version_from_tag("4294967296"), None);
    assert_eq!(version_from_tag(""), None);
    assert_eq!(version_from_tag("-1"), None);
    assert_eq!(version_from_tag("v2"), None);
}

#[test]
fn validity_boundaries() {
    assert_eq!(decode_validity(0x0000), 0);
    assert_eq!(decode_validity(0x0001), 4000);
    assert_eq!(decode_validity(0x0002), 200);
    assert_eq!(decode_validity(0x0003), 12000);
    assert_eq!(decode_validity(0xffff), 65535 * 4000);
    assert_eq!(decode_validity(0xfffe), 65534 * 100);
}

#[test]
fn little_endian_fields() {
    assert_eq!(read_u16_le(&[0x34, 0x12]), Some(0x1234));
    assert_eq!(read_u16_le(&[0x34, 0x12, 0x99]), Some(0x1234));
    assert_eq!(read_u16_le(&[0x34]), None);
    assert_eq!(read_u16_le(&[]), None);
}

#[test]
fn option_codes() {
    assert_eq!(CoIoTOption::GlobalDevId.code(), 3332);
    assert_eq!(CoIoTOption::StatusValidity.code(), 3412);
    assert_eq!(CoIoTOption::StatusSerial.code(), 3420);
    let c: u16 = CoIoTOption::StatusValidity.into();
    assert_eq!(c, 3412);
}

#[test]
fn option_values_keep_wire_order() {
    let mut r = Response::new(69, vec![]);
    assert_eq!(r.get_opt(CoIoTOption::GlobalDevId), None);
    r.add_option(GLOBAL_DEV_ID, b"first".to_vec());
    r.add_option(11, b"other".to_vec());
    r.add_option(GLOBAL_DEV_ID, b"second".to_vec());
    assert_eq!(
        r.get_opt(CoIoTOption::GlobalDevId),
        Some(&vec![b"first".to_vec(), b"second".to_vec()])
    );
    assert_eq!(r.option(11), Some(&vec![b"other".to_vec()]));
    assert_eq!(r.option(12), None);
}

#[test]
fn response_fields() {
    let mut r = Response::new(30, b"{}".to_vec());
    r.add_option(GLOBAL_DEV_ID, b"SHSW-1#A1B2#2".to_vec());
    r.add_option(STATUS_VALIDITY, vec![0x01, 0x00]);
    r.add_option(STATUS_SERIAL, vec![0x34, 0x12]);
    assert_eq!(r.device_id(), Some("SHSW-1#A1B2#2".to_string()));
    assert_eq!(r.device_type(), Some("SHSW-1".to_string()));
    assert_eq!(r.device_serial(), Some("A1B2".to_string()));
    assert_eq!(r.coiot_version(), Some(Version::V2));
    assert_eq!(r.validity_duration(), Some(4000));
    assert_eq!(r.msg_seq_no(), Some(0x1234));
    assert_eq!(r.payload_text(), Ok("{}".to_string()));
}

#[test]
fn short_and_missing_fields_are_absent() {
    let mut r = Response::new(30, vec![]);
    assert_eq!(r.validity_duration(), None);
    assert_eq!(r.msg_seq_no(), None);
    assert_eq!(r.device_id(), None);
    r.add_option(STATUS_VALIDITY, vec![0x02]);
    r.add_option(STATUS_SERIAL, vec![0x02]);
    assert_eq!(r.validity_duration(), None);
    assert_eq!(r.msg_seq_no(), None);
}

#[test]
fn invalid_utf8_is_an_encoding_error() {
    let mut r = Response::new(30, vec![0xff, 0xfe]);
    r.add_option(GLOBAL_DEV_ID, vec![b'a', b'#', 0xff, b'#', b'1']);
    assert_eq!(r.device_id(), None);
    assert_eq!(r.device_type(), None);
    assert_eq!(r.payload_text(), Err(DecodeError::Encoding));
}

#[test]
fn category_codes() {
    assert_eq!(SenType::from_code("A"), Some(SenType::Alarm));
    assert_eq!(SenType::from_code("I"), Some(SenType::Current));
    assert_eq!(SenType::from_code("E"), Some(SenType::Energy));
    assert_eq!(SenType::from_code("EVC"), Some(SenType::EventCounter));
    assert_eq!(SenType::from_code("P"), Some(SenType::Power));
    assert_eq!(SenType::from_code("S"), Some(SenType::Status));
    assert_eq!(SenType::from_code("V"), Some(SenType::Voltage));
    for other in ["", "B", "EV", "T", "a", "EVCX", "AA"] {
        assert_eq!(SenType::from_code(other), None);
    }
}

#[test]
fn one_or_many_normalizes() {
    assert_eq!(decode_ids(&num(4)), Some(vec![4]));
    assert_eq!(decode_ids(&Json::Array(vec![num(4)])), Some(vec![4]));
    assert_eq!(decode_ids(&Json::Array(vec![num(4), num(5)])), Some(vec![4, 5]));
    assert_eq!(decode_ids(&text("4")), None);
    assert_eq!(decode_ids(&num(1 << 32)), None);
    assert_eq!(decode_texts(&text("x")), Some(vec!["x".to_string()]));
    assert_eq!(decode_texts(&Json::Array(vec![text("x")])), Some(vec!["x".to_string()]));
    assert_eq!(decode_texts(&Json::Array(vec![text("x"), num(1)])), None);
}

#[test]
fn descriptor_decodes() {
    let d = Description::from_json(&relay_descriptor()).unwrap();
    assert_eq!(d.blk.len(), 1);
    assert_eq!(d.blk[0].id, 1);
    assert_eq!(d.blk[0].descr, "Relay");
    let s = &d.sen[0];
    assert_eq!(s.id, 10);
    assert_eq!(s.kind, SenType::Power);
    assert_eq!(s.unit, Some("W".to_string()));
    assert!(s.range.is_none());
    assert_eq!(s.links, vec![1]);
}

#[test]
fn descriptor_with_range_and_null_unit() {
    let j = obj(vec![
        ("blk", Json::Array(vec![])),
        (
            "sen",
            Json::Array(vec![obj(vec![
                ("I", num(3)),
                ("D", text("Input")),
                ("T", text("S")),
                ("U", Json::Null),
                ("R", text("0/1")),
                ("L", Json::Array(vec![num(1), num(2)])),
            ])]),
        ),
    ]);
    let d = Description::from_json(&j).unwrap();
    assert_eq!(d.sen[0].unit, None);
    assert_eq!(d.sen[0].range.as_ref().unwrap().0, vec!["0/1".to_string()]);
    assert_eq!(d.sen[0].links, vec![1, 2]);
}

#[test]
fn descriptor_schema_errors() {
    let bad_category = obj(vec![
        ("blk", Json::Array(vec![])),
        (
            "sen",
            Json::Array(vec![obj(vec![
                ("I", num(3)),
                ("D", text("T")),
                ("T", text("B")),
                ("L", num(1)),
            ])]),
        ),
    ]);
    assert_eq!(Description::from_json(&bad_category).unwrap_err(), DecodeError::Schema(None));
    assert_eq!(Description::from_json(&obj(vec![("blk", Json::Array(vec![]))])).unwrap_err(), DecodeError::Schema(None));
    let no_links = obj(vec![
        ("blk", Json::Array(vec![])),
        ("sen", Json::Array(vec![obj(vec![("I", num(3)), ("D", text("T")), ("T", text("S"))])])),
    ]);
    assert!(Description::from_json(&no_links).is_err());
    assert!(BlockDesc::from_json(&obj(vec![("I", float("1.5")), ("D", text("x"))])).is_none());
    assert!(SenDesc::from_json(&text("x")).is_none());
}

#[test]
fn status_decodes_by_position() {
    let j = obj(vec![(
        "G",
        Json::Array(vec![
            Json::Array(vec![num(0), num(10), float("42.5")]),
            Json::Array(vec![num(1), num(11), num(3)]),
        ]),
    )]);
    let s = Status::from_json(&j).unwrap();
    let es = s.gen_entries();
    assert_eq!(es.len(), 2);
    assert_eq!((es[0].channel, es[0].id, es[0].value.as_str()), (0, 10, "42.5"));
    assert_eq!((es[1].channel, es[1].id, es[1].value.as_str()), (1, 11, "3"));
    let short = obj(vec![("G", Json::Array(vec![Json::Array(vec![num(0), num(10)])]))]);
    assert_eq!(Status::from_json(&short).unwrap_err(), DecodeError::Schema(None));
    assert!(StatusEntry::from_json(&Json::Array(vec![num(0), num(1), text("x")])).is_none());
    assert!(StatusEntry::from_json(&Json::Array(vec![num(0), num(1), num(2), num(3)])).is_none());
}

#[test]
fn end_to_end_relay_power() {
    let d = Description::from_json(&relay_descriptor()).unwrap();
    let s = Status::from_json(&obj(vec![(
        "G",
        Json::Array(vec![Json::Array(vec![num(0), num(10), float("42.5")])]),
    )]))
    .unwrap();
    let r = reading(s.gen_entries()[0].correlate(&d));
    assert_eq!(r.id, 10);
    assert_eq!(r.device, "Relay");
    assert_eq!(r.descr, "Power");
    assert_eq!(r.unit, "W");
    assert_eq!(format!("{:.2}", r.value.parse::<f64>().unwrap()), "42.50");
}

#[test]
fn unknown_sensor_gives_placeholder() {
    let d = Description::from_json(&relay_descriptor()).unwrap();
    match entry(99, "1").correlate(&d) {
        Rendered::NoDescription { channel, id, value } => {
            assert_eq!((channel, id, value.as_str()), (0, 99, "1"));
        }
        other => panic!("expected a placeholder, got {:?}", other),
    }
}

#[test]
fn device_label_by_number_of_blocks() {
    let none = Description::from_json(&sensor_linked_to(num(9))).unwrap();
    assert_eq!(reading(entry(7, "0").correlate(&none)).device, "Unknown device");
    let one = Description::from_json(&sensor_linked_to(num(2))).unwrap();
    assert_eq!(reading(entry(7, "0").correlate(&one)).device, "Relay1");
    let two = Description::from_json(&sensor_linked_to(Json::Array(vec![num(3), num(1)]))).unwrap();
    assert_eq!(reading(entry(7, "0").correlate(&two)).device, "Relay0Meter");
    assert_eq!(reading(entry(7, "0").correlate(&two)).unit, "");
    assert_eq!(label_for(&two.blk, &vec![]), "Unknown device");
}

#[test]
fn schema_error_pretty_prints() {
    match schema_error("{\"a\":1}") {
        DecodeError::Schema(Some(p)) => assert_eq!(p, "{\n  \"a\": 1\n}"),
        other => panic!("unexpected {:?}", other),
    }
    assert_eq!(schema_error("not json"), DecodeError::Schema(None));
}

#[test]
fn text_equality() {
    assert!(text_eq("blk", "blk"));
    assert!(!text_eq("blk", "bl"));
    assert!(!text_eq("abc", "abd"));
}

fn datagram(code: MessageClass, dev_id: &str) -> Vec<u8> {
    let mut p = Packet::new();
    p.header.code = code;
    p.add_option(CoapOption::Unknown(3420), vec![0x05, 0x00]);
    p.add_option(CoapOption::Unknown(3332), dev_id.as_bytes().to_vec());
    p.payload = b"{\"G\":[]}".to_vec();
    p.to_bytes().unwrap()
}

#[test]
fn observer_keeps_only_status_pushes() {
    let push = datagram(MessageClass::from(STATUS_PUSH_CODE), "SHDM-1#XY#2");
    match classify_datagram(COIOT_PORT, &push) {
        Announcement::StatusPush(r) => {
            assert_eq!(r.code, 30);
            assert_eq!(r.device_serial(), Some("XY".to_string()));
            assert_eq!(r.msg_seq_no(), Some(5));
            assert_eq!(r.payload_text(), Ok("{\"G\":[]}".to_string()));
            assert_eq!(r.options.iter().map(|o| o.0).collect::<Vec<_>>(), vec![3332, 3420]);
        }
        other => panic!("expected a status push, got {:?}", other),
    }
    let content = datagram(MessageClass::Response(ResponseType::Content), "SHDM-1#XY#2");
    assert!(matches!(classify_datagram(COIOT_PORT, &content), Announcement::Ignored));
    assert!(matches!(classify_datagram(1234, &push), Announcement::Ignored));
    assert!(matches!(classify_datagram(COIOT_PORT, &[0xff]), Announcement::Malformed));
    assert!(matches!(classify_response(Response::new(69, vec![])), Announcement::Ignored));
    assert!(matches!(Response::from_bytes(&[0x40]), Err(DecodeError::MalformedPacket)));
}

#[test]
fn response_identity() {
    let mut r = Response::new(30, vec![]);
    assert!(r.identity().is_none());
    r.add_option(GLOBAL_DEV_ID, b"SHPLG-S#6A7B#2".to_vec());
    let d = r.identity().unwrap().unwrap();
    assert_eq!((d.device_type.as_str(), d.device_serial.as_str(), d.version), ("SHPLG-S", "6A7B", Version::V2));

    let mut bad = Response::new(30, vec![]);
    bad.add_option(GLOBAL_DEV_ID, b"onlyonehash#nosecond".to_vec());
    assert_eq!(bad.identity().unwrap().unwrap_err(), DecodeError::MalformedIdentity);

    let mut not_text = Response::new(30, vec![]);
    not_text.add_option(GLOBAL_DEV_ID, vec![0xc3, 0x28, b'#', b'a', b'#', b'1']);
    assert_eq!(not_text.identity().unwrap().unwrap_err(), DecodeError::Encoding);
}

#[test]
fn from_bytes_keeps_code_options_and_payload() {
    let bytes = datagram(MessageClass::Response(ResponseType::Content), "A#B#1");
    let r = Response::from_bytes(&bytes).unwrap();
    assert_eq!(r.code, 0x45);
    assert_eq!(r.payload, b"{\"G\":[]}".to_vec());
    assert_eq!(r.option(3332), Some(&vec![b"A#B#1".to_vec()]));
    assert_eq!(r.option(3420), Some(&vec![vec![0x05, 0x00]]));
    assert_eq!(r.coiot_version(), Some(Version::V1));
}

#[test]
fn schema_error_on_long_text_skips_pretty_printing() {
    let long_fraction = format!("{{\"G\":0.{}}}", "0".repeat(32769));
    assert_eq!(schema_error(&long_fraction), DecodeError::Schema(None));
    let near_limit = format!("{{\"G\":0.{}1}}", "0".repeat(31980));
    assert!(matches!(schema_error(&near_limit), DecodeError::Schema(Some(_))));
}
