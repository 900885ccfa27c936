use ipp::attribute::{IppAttribute, IppAttributeGroup, IppAttributes};
use ipp::model::{DelimiterTag, IppHeader, IppVersion};
use ipp::parse::ParseError;
use ipp::request::{rewrite_scheme, IppParser, IppRequestResponse};
use ipp::optparse::parse_option_value;
use ipp::value::{decode_value_exec, IppDateTime, IppResolution, IppValue};

fn encode(v: &IppValue) -> (u8, Vec<u8>) {
    let mut body: Vec<u8> = Vec::new();
    v.write_body(&mut body);
    (v.tag(), body)
}

fn round_trip(v: IppValue) {
    let (tag, body) = encode(&v);
    let back = decode_value_exec(tag, body);
    assert_eq!(back, Some(v));
}

#[test]
fn value_round_trip_integer() {
    round_trip(IppValue::Integer(-123456));
    round_trip(IppValue::Integer(0));
    round_trip(IppValue::Integer(i32::MAX));
    round_trip(IppValue::Integer(i32::MIN));
}

#[test]
fn value_round_trip_boolean() {
    round_trip(IppValue::Boolean(true));
    round_trip(IppValue::Boolean(false));
}

#[test]
fn value_round_trip_enum() {
    round_trip(IppValue::Enum(4));
}

#[test]
fn value_round_trip_strings() {
    round_trip(IppValue::OctetString(vec![0, 1, 2, 255]));
    round_trip(IppValue::TextWithoutLanguage(b"a text".to_vec()));
    round_trip(IppValue::NameWithoutLanguage(b"a name".to_vec()));
    round_trip(IppValue::Keyword(b"one-sided".to_vec()));
    round_trip(IppValue::Uri(b"ipp://host/printer".to_vec()));
    round_trip(IppValue::UriScheme(b"ipp".to_vec()));
    round_trip(IppValue::Charset(b"utf-8".to_vec()));
    round_trip(IppValue::NaturalLanguage(b"en".to_vec()));
    round_trip(IppValue::MimeMediaType(b"application/pdf".to_vec()));
    round_trip(IppValue::MemberAttrName(b"media-size".to_vec()));
}

#[test]
fn value_round_trip_with_language() {
    round_trip(IppValue::TextWithLanguage {
        language: b"en".to_vec(),
        text: b"hello".to_vec(),
    });
    round_trip(IppValue::NameWithLanguage {
        language: b"fr".to_vec(),
        name: b"bonjour".to_vec(),
    });
}

#[test]
fn value_round_trip_fixed_width() {
    round_trip(IppValue::DateTime(IppDateTime {
        year: 2024,
        month: 5,
        day: 17,
        hour: 12,
        minutes: 30,
        seconds: 59,
        deciseconds: 7,
        utc_dir: b'+',
        utc_hours: 1,
        utc_minutes: 30,
    }));
    round_trip(IppValue::Resolution(IppResolution {
        cross_feed: 600,
        feed: 1200,
        units: 3,
    }));
    round_trip(IppValue::RangeOfInteger { min: -5, max: 990 });
}

#[test]
fn value_round_trip_other() {
    round_trip(IppValue::Other {
        tag: 0x7E,
        data: vec![0xAA, 0xBB, 0xCC],
    });
}

#[test]
fn integer_wrong_length_is_rejected() {
    let r = decode_value_exec(0x21, vec![0, 0, 1]);
    assert_eq!(r, None);
}

#[test]
fn message_round_trip_preserves_everything() {
    let uri = b"ipp://printer.local/ipp/print".to_vec();
    let mut req = IppRequestResponse::new(ipp::model::Operation::PrintJob, &uri);
    req.set_attribute(
        DelimiterTag::JobAttributes,
        IppAttribute::new(b"copies".to_vec(), IppValue::Integer(3)),
    );
    req.set_attribute(
        DelimiterTag::JobAttributes,
        IppAttribute::with_values(
            b"finishings".to_vec(),
            vec![IppValue::Enum(4), IppValue::Enum(5)],
        ),
    );
    req.set_payload(b"DOCUMENT".to_vec());
    let expected_header = *req.header();
    let expected_groups = req.attributes().groups.clone();
    let bytes = req.into_reader();

    let parsed = IppRequestResponse::from_parser(IppParser::new(bytes)).unwrap();
    assert_eq!(*parsed.header(), expected_header);
    assert_eq!(parsed.attributes().groups, expected_groups);
    assert_eq!(parsed.payload().as_ref().unwrap(), &b"DOCUMENT".to_vec());
}

#[test]
fn multi_value_serializes_one_name_and_continuations() {
    let name = b"ipp-versions-supported".to_vec();
    let attr = IppAttribute::with_values(
        name.clone(),
        vec![
            IppValue::Keyword(b"1.0".to_vec()),
            IppValue::Keyword(b"1.1".to_vec()),
            IppValue::Keyword(b"2.0".to_vec()),
        ],
    );
    let mut req = IppRequestResponse::new_response(0, 7);
    req.set_attribute(DelimiterTag::PrinterAttributes, attr);
    let bytes = req.into_reader();

    // Exactly one occurrence of the attribute name on the wire.
    let occurrences = bytes
        .windows(name.len())
        .filter(|w| *w == name.as_slice())
        .count();
    assert_eq!(occurrences, 1);

    // Exactly three keyword-tagged entries, two of them with an empty
    // name (continuations), in order.
    let parsed = IppRequestResponse::from_parser(IppParser::new(bytes)).unwrap();
    let group = &parsed.attributes().groups[1];
    assert_eq!(group.tag, 0x04);
    let a = &group.attributes[0];
    assert_eq!(a.name, name);
    assert_eq!(
        a.values,
        vec![
            IppValue::Keyword(b"1.0".to_vec()),
            IppValue::Keyword(b"1.1".to_vec()),
            IppValue::Keyword(b"2.0".to_vec()),
        ]
    );
}

#[test]
fn unknown_tag_round_trips_byte_identically() {
    let mut req = IppRequestResponse::new_response(0, 1);
    req.set_attribute(
        DelimiterTag::PrinterAttributes,
        IppAttribute::new(
            b"vendor-blob".to_vec(),
            IppValue::Other {
                tag: 0x7E,
                data: vec![0xAA, 0xBB, 0xCC],
            },
        ),
    );
    let bytes = req.into_reader();
    let parsed = IppRequestResponse::from_parser(IppParser::new(bytes.clone())).unwrap();
    let group = &parsed.attributes().groups[1];
    assert_eq!(
        group.attributes[0].values[0],
        IppValue::Other {
            tag: 0x7E,
            data: vec![0xAA, 0xBB, 0xCC],
        }
    );
    let again = parsed.into_reader();
    assert_eq!(again, bytes);
}

#[test]
fn truncated_message_reports_eof() {
    let req = IppRequestResponse::new_response(0, 9);
    let mut bytes = req.into_reader();
    bytes.pop();
    let r = IppRequestResponse::from_parser(IppParser::new(bytes));
    assert_eq!(r.err().unwrap(), ParseError::UnexpectedEof);
}

fn entry(tag: u8, name: &[u8], body: &[u8]) -> Vec<u8> {
    let mut out = vec![tag];
    out.extend_from_slice(&(name.len() as u16).to_be_bytes());
    out.extend_from_slice(name);
    out.extend_from_slice(&(body.len() as u16).to_be_bytes());
    out.extend_from_slice(body);
    out
}

fn header(op: u16, id: u32) -> Vec<u8> {
    let mut out = vec![1u8, 1u8];
    out.extend_from_slice(&op.to_be_bytes());
    out.extend_from_slice(&id.to_be_bytes());
    out
}

#[test]
fn duplicate_attribute_is_a_distinct_error() {
    let mut bytes = header(0, 1);
    bytes.push(0x01);
    bytes.extend_from_slice(&entry(0x44, b"sides", b"one-sided"));
    bytes.extend_from_slice(&entry(0x44, b"sides", b"two-sided"));
    bytes.push(0x03);
    let r = IppRequestResponse::from_parser(IppParser::new(bytes));
    assert_eq!(r.err().unwrap(), ParseError::DuplicateAttribute);
}

#[test]
fn continuation_without_attribute_is_a_distinct_error() {
    let mut bytes = header(0, 1);
    bytes.push(0x01);
    bytes.extend_from_slice(&entry(0x44, b"", b"orphan"));
    bytes.push(0x03);
    let r = IppRequestResponse::from_parser(IppParser::new(bytes));
    assert_eq!(r.err().unwrap(), ParseError::ContinuationWithoutAttribute);
}

#[test]
fn overlong_declared_value_is_an_eof_not_a_panic() {
    let mut bytes = header(0, 1);
    bytes.push(0x01);
    // Declares a 600-byte body but provides 3 bytes.
    bytes.extend_from_slice(&[0x44, 0x00, 0x01, b'a', 0x02, 0x58, 1, 2, 3]);
    let r = IppRequestResponse::from_parser(IppParser::new(bytes));
    assert_eq!(r.err().unwrap(), ParseError::UnexpectedEof);
}

#[test]
fn value_outside_group_is_rejected() {
    let mut bytes = header(0, 1);
    bytes.extend_from_slice(&entry(0x44, b"sides", b"one-sided"));
    bytes.push(0x03);
    let r = IppRequestResponse::from_parser(IppParser::new(bytes));
    assert_eq!(r.err().unwrap(), ParseError::ValueOutsideGroup);
}

#[test]
fn bad_delimiter_is_rejected() {
    let mut bytes = header(0, 1);
    bytes.push(0x0E);
    bytes.push(0x03);
    let r = IppRequestResponse::from_parser(IppParser::new(bytes));
    assert_eq!(r.err().unwrap(), ParseError::InvalidTag(0x0E));
}

#[test]
fn scheme_is_rewritten_onto_ipp() {
    assert_eq!(
        rewrite_scheme(&b"http://host:631/printer".to_vec()),
        b"ipp://host:631/printer".to_vec()
    );
    assert_eq!(
        rewrite_scheme(&b"https://host/printer".to_vec()),
        b"ipps://host/printer".to_vec()
    );
    assert_eq!(
        rewrite_scheme(&b"ipp://host/printer".to_vec()),
        b"ipp://host/printer".to_vec()
    );
}

#[test]
fn new_request_seeds_charset_language_uri_in_order() {
    let req = IppRequestResponse::new(
        ipp::model::Operation::PrintJob,
        &b"http://host/printer".to_vec(),
    );
    let groups = &req.attributes().groups;
    assert_eq!(groups.len(), 1);
    assert_eq!(groups[0].tag, 0x01);
    let attrs = &groups[0].attributes;
    assert_eq!(attrs[0].name, b"attributes-charset".to_vec());
    assert_eq!(attrs[0].values[0], IppValue::Charset(b"utf-8".to_vec()));
    assert_eq!(attrs[1].name, b"attributes-natural-language".to_vec());
    assert_eq!(attrs[1].values[0], IppValue::NaturalLanguage(b"en".to_vec()));
    assert_eq!(attrs[2].name, b"printer-uri".to_vec());
    assert_eq!(attrs[2].values[0], IppValue::Uri(b"ipp://host/printer".to_vec()));
}

#[test]
fn set_attribute_replaces_in_place() {
    let mut req = IppRequestResponse::new_response(0, 1);
    req.set_attribute(
        DelimiterTag::JobAttributes,
        IppAttribute::new(b"copies".to_vec(), IppValue::Integer(1)),
    );
    req.set_attribute(
        DelimiterTag::JobAttributes,
        IppAttribute::new(b"media".to_vec(), IppValue::Keyword(b"a4".to_vec())),
    );
    req.set_attribute(
        DelimiterTag::JobAttributes,
        IppAttribute::new(b"copies".to_vec(), IppValue::Integer(9)),
    );
    let group = &req.attributes().groups[1];
    assert_eq!(group.attributes.len(), 2);
    assert_eq!(group.attributes[0].name, b"copies".to_vec());
    assert_eq!(group.attributes[0].values[0], IppValue::Integer(9));
    assert_eq!(group.attributes[1].name, b"media".to_vec());
}

#[test]
fn header_round_trips_fields() {
    let h = IppHeader::new(IppVersion::Ipp11, 0x000B, 77);
    assert_eq!(h.version_major, 1);
    assert_eq!(h.version_minor, 1);
    assert_eq!(h.operation_or_status, 0x000B);
    assert_eq!(h.request_id, 77);
    assert_eq!(h.get_status_code(), 0x000B);
}

#[test]
fn empty_message_parses_to_no_groups() {
    let mut bytes = header(0x0002, 5);
    bytes.push(0x03);
    bytes.extend_from_slice(b"tail");
    let parsed = IppRequestResponse::from_parser(IppParser::new(bytes)).unwrap();
    assert_eq!(parsed.attributes().groups.len(), 0);
    assert_eq!(parsed.payload().as_ref().unwrap(), &b"tail".to_vec());
}

#[test]
fn attributes_container_keeps_group_multiplicity() {
    let mut bytes = header(0, 1);
    bytes.push(0x02);
    bytes.extend_from_slice(&entry(0x21, b"job-id", &1i32.to_be_bytes()));
    bytes.push(0x02);
    bytes.extend_from_slice(&entry(0x21, b"job-id", &2i32.to_be_bytes()));
    bytes.push(0x03);
    let parsed = IppRequestResponse::from_parser(IppParser::new(bytes)).unwrap();
    let groups = &parsed.attributes().groups;
    assert_eq!(groups.len(), 2);
    assert_eq!(groups[0].tag, 0x02);
    assert_eq!(groups[1].tag, 0x02);
    assert_eq!(groups[0].attributes[0].values[0], IppValue::Integer(1));
    assert_eq!(groups[1].attributes[0].values[0], IppValue::Integer(2));
}

#[test]
fn find_attribute_and_group_lookups() {
    let group = IppAttributeGroup {
        tag: 0x04,
        attributes: vec![
            IppAttribute::new(b"printer-name".to_vec(), IppValue::NameWithoutLanguage(b"p1".to_vec())),
            IppAttribute::new(b"printer-state".to_vec(), IppValue::Enum(3)),
        ],
    };
    assert_eq!(group.find_attribute(&b"printer-state".to_vec()), Some(1));
    assert_eq!(group.find_attribute(&b"missing".to_vec()), None);
    let attrs = IppAttributes {
        groups: vec![IppAttributeGroup { tag: 0x01, attributes: vec![] }, group],
    };
    assert_eq!(attrs.find_group_from(0x04, 0), Some(1));
    assert_eq!(attrs.find_group_from(0x05, 0), None);
}

#[test]
fn option_values_parse_by_fixed_forms() {
    assert_eq!(parse_option_value(b"true".to_vec()), IppValue::Boolean(true));
    assert_eq!(parse_option_value(b"false".to_vec()), IppValue::Boolean(false));
    assert_eq!(parse_option_value(b"42".to_vec()), IppValue::Integer(42));
    assert_eq!(parse_option_value(b"-17".to_vec()), IppValue::Integer(-17));
    assert_eq!(
        parse_option_value(b"2147483647".to_vec()),
        IppValue::Integer(i32::MAX)
    );
    assert_eq!(
        parse_option_value(b"-2147483648".to_vec()),
        IppValue::Integer(i32::MIN)
    );
    assert_eq!(
        parse_option_value(b"1..5".to_vec()),
        IppValue::RangeOfInteger { min: 1, max: 5 }
    );
    assert_eq!(
        parse_option_value(b"-3..7".to_vec()),
        IppValue::RangeOfInteger { min: -3, max: 7 }
    );
    assert_eq!(
        parse_option_value(b"600x1200dpi".to_vec()),
        IppValue::Resolution(IppResolution {
            cross_feed: 600,
            feed: 1200,
            units: 3,
        })
    );
    assert_eq!(
        parse_option_value(b"300x300dpcm".to_vec()),
        IppValue::Resolution(IppResolution {
            cross_feed: 300,
            feed: 300,
            units: 4,
        })
    );
    assert_eq!(
        parse_option_value(b"600x600".to_vec()),
        IppValue::Resolution(IppResolution {
            cross_feed: 600,
            feed: 600,
            units: 3,
        })
    );
    assert_eq!(
        parse_option_value(b"matte".to_vec()),
        IppValue::Keyword(b"matte".to_vec())
    );
    // Too large for an i32: falls back to a keyword.
    assert_eq!(
        parse_option_value(b"99999999999".to_vec()),
        IppValue::Keyword(b"99999999999".to_vec())
    );
    assert_eq!(
        parse_option_value(b"1.5".to_vec()),
        IppValue::Keyword(b"1.5".to_vec())
    );
    assert_eq!(
        parse_option_value(b"".to_vec()),
        IppValue::Keyword(b"".to_vec())
    );
}
