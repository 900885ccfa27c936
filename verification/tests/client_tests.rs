use ipp::attribute::IppAttribute;
use ipp::model::{DelimiterTag, Operation, PrinterState};
use ipp::operation::IppOperationBuilder;
use ipp::request::{IppParser, IppRequestResponse};
use ipp::status::{
    check_printer_ready, evaluate_printer_status, is_error_status, status_class, IppError,
    StatusClass,
};
use ipp::value::IppValue;

#[test]
fn cups_get_printers_header_bytes() {
    let req = IppOperationBuilder::cups().get_printers();
    let bytes = req.into_reader();
    assert_eq!(&bytes[0..8], &[0x01, 0x01, 0x40, 0x02, 0x00, 0x00, 0x00, 0x01]);
    // Operation-attributes group with charset and language, then the
    // end-of-attributes tag and no payload.
    assert_eq!(bytes[8], 0x01);
    assert_eq!(*bytes.last().unwrap(), 0x03);
    let expected: Vec<u8> = {
        let mut v = vec![0x01u8, 0x01, 0x40, 0x02, 0x00, 0x00, 0x00, 0x01, 0x01];
        v.push(0x47);
        v.extend_from_slice(&18u16.to_be_bytes());
        v.extend_from_slice(b"attributes-charset");
        v.extend_from_slice(&5u16.to_be_bytes());
        v.extend_from_slice(b"utf-8");
        v.push(0x48);
        v.extend_from_slice(&27u16.to_be_bytes());
        v.extend_from_slice(b"attributes-natural-language");
        v.extend_from_slice(&2u16.to_be_bytes());
        v.extend_from_slice(b"en");
        v.push(0x03);
        v
    };
    assert_eq!(bytes, expected);
}

#[test]
fn cups_get_printers_response_reads_printer_rows() {
    // A response of the kind a CUPS server sends back: one group per
    // printer with name, device URI and state.
    let mut resp = IppRequestResponse::new_response(0, 1);
    resp.set_attribute(
        DelimiterTag::PrinterAttributes,
        IppAttribute::new(
            b"printer-name".to_vec(),
            IppValue::NameWithoutLanguage(b"office".to_vec()),
        ),
    );
    resp.set_attribute(
        DelimiterTag::PrinterAttributes,
        IppAttribute::new(
            b"device-uri".to_vec(),
            IppValue::Uri(b"usb://Printer/Office".to_vec()),
        ),
    );
    resp.set_attribute(
        DelimiterTag::PrinterAttributes,
        IppAttribute::new(b"printer-state".to_vec(), IppValue::Enum(3)),
    );
    let bytes = resp.into_reader();
    let parsed = IppRequestResponse::from_parser(IppParser::new(bytes)).unwrap();
    let attrs = parsed.attributes();
    let gi = attrs.find_group_from(0x04, 0).unwrap();
    let group = attrs.group_at(gi);
    let name_i = group.find_attribute(&b"printer-name".to_vec()).unwrap();
    assert_eq!(
        group.attribute_at(name_i).value(),
        &IppValue::NameWithoutLanguage(b"office".to_vec())
    );
    let state_i = group.find_attribute(&b"printer-state".to_vec()).unwrap();
    let state = match group.attribute_at(state_i).value() {
        IppValue::Enum(v) => PrinterState::from_i32(*v).unwrap(),
        other => panic!("printer-state should be an enum, got {:?}", other),
    };
    assert_eq!(state, PrinterState::Idle);
    assert_eq!(PrinterState::from_i32(4), Some(PrinterState::Processing));
    assert_eq!(PrinterState::from_i32(5), Some(PrinterState::Stopped));
    assert_eq!(PrinterState::from_i32(9), None);
}

#[test]
fn get_printer_attributes_request_shape() {
    let req = IppOperationBuilder::get_printer_attributes(b"ipp://host/printer".to_vec())
        .attributes(vec![
            b"printer-state".to_vec(),
            b"printer-is-accepting-jobs".to_vec(),
        ])
        .build();
    assert_eq!(req.header().operation_or_status, 0x000B);
    let bytes = req.into_reader();
    assert_eq!(&bytes[2..4], &[0x00, 0x0B]);
    let parsed = IppRequestResponse::from_parser(IppParser::new(bytes)).unwrap();
    let group = parsed.attributes().group_at(0);
    let ri = group.find_attribute(&b"requested-attributes".to_vec()).unwrap();
    assert_eq!(
        group.attribute_at(ri).values(),
        &vec![
            IppValue::Keyword(b"printer-state".to_vec()),
            IppValue::Keyword(b"printer-is-accepting-jobs".to_vec()),
        ]
    );
}

#[test]
fn get_printer_attributes_response_holds_requested() {
    let mut resp = IppRequestResponse::new_response(0, 2);
    resp.set_attribute(
        DelimiterTag::PrinterAttributes,
        IppAttribute::new(b"printer-state".to_vec(), IppValue::Enum(3)),
    );
    resp.set_attribute(
        DelimiterTag::PrinterAttributes,
        IppAttribute::new(b"printer-is-accepting-jobs".to_vec(), IppValue::Boolean(true)),
    );
    let parsed =
        IppRequestResponse::from_parser(IppParser::new(resp.into_reader())).unwrap();
    let attrs = parsed.attributes();
    let gi = attrs.find_group_from(0x04, 0).unwrap();
    let group = attrs.group_at(gi);
    assert_eq!(group.len(), 2);
    assert!(group.find_attribute(&b"printer-state".to_vec()).is_some());
    assert!(group
        .find_attribute(&b"printer-is-accepting-jobs".to_vec())
        .is_some());
}

#[test]
fn print_job_body_ends_with_document() {
    let req = IppOperationBuilder::print_job(
        b"http://host/printer".to_vec(),
        b"hello".to_vec(),
    )
    .job_title(b"greeting".to_vec())
    .user_name(b"alice".to_vec())
    .build();
    assert_eq!(req.header().operation_or_status, 0x0002);
    let bytes = req.into_reader();
    assert_eq!(&bytes[bytes.len() - 5..], b"hello");
    // The metadata before the payload ends with end-of-attributes.
    assert_eq!(bytes[bytes.len() - 6], 0x03);
    let parsed = IppRequestResponse::from_parser(IppParser::new(bytes)).unwrap();
    let group = parsed.attributes().group_at(0);
    assert_eq!(
        group.attribute_at(2).value(),
        &IppValue::Uri(b"ipp://host/printer".to_vec())
    );
    assert_eq!(
        group.attribute_at(3).value(),
        &IppValue::NameWithoutLanguage(b"greeting".to_vec())
    );
    assert_eq!(
        group.attribute_at(4).value(),
        &IppValue::NameWithoutLanguage(b"alice".to_vec())
    );
    assert_eq!(parsed.payload().as_ref().unwrap(), &b"hello".to_vec());
}

#[test]
fn print_job_response_carries_job_attributes() {
    let mut resp = IppRequestResponse::new_response(0x0000, 3);
    resp.set_attribute(
        DelimiterTag::JobAttributes,
        IppAttribute::new(b"job-id".to_vec(), IppValue::Integer(42)),
    );
    resp.set_attribute(
        DelimiterTag::JobAttributes,
        IppAttribute::new(b"job-state".to_vec(), IppValue::Enum(5)),
    );
    let parsed =
        IppRequestResponse::from_parser(IppParser::new(resp.into_reader())).unwrap();
    assert_eq!(parsed.header().get_status_code(), 0x0000);
    assert_eq!(status_class(parsed.header().get_status_code()), StatusClass::Successful);
    let attrs = parsed.attributes();
    let gi = attrs.find_group_from(0x02, 0).unwrap();
    let group = attrs.group_at(gi);
    let ji = group.find_attribute(&b"job-id".to_vec()).unwrap();
    match group.attribute_at(ji).value() {
        IppValue::Integer(v) => assert!(*v > 0),
        other => panic!("job-id should be an integer, got {:?}", other),
    }
    assert!(group.find_attribute(&b"job-state".to_vec()).is_some());
}

#[test]
fn job_operation_builders_carry_job_id() {
    let uri = b"ipp://host/printer".to_vec();
    let req = IppOperationBuilder::cancel_job(&uri, 17);
    assert_eq!(req.header().operation_or_status, 0x0008);
    let parsed = IppRequestResponse::from_parser(IppParser::new(req.into_reader())).unwrap();
    let group = parsed.attributes().group_at(0);
    let ji = group.find_attribute(&b"job-id".to_vec()).unwrap();
    assert_eq!(group.attribute_at(ji).value(), &IppValue::Integer(17));

    let req = IppOperationBuilder::get_job_attributes(&uri, 9);
    assert_eq!(req.header().operation_or_status, 0x0009);

    let req = IppOperationBuilder::send_document(&uri, 17, b"rest".to_vec(), true);
    assert_eq!(req.header().operation_or_status, 0x0006);
    let parsed = IppRequestResponse::from_parser(IppParser::new(req.into_reader())).unwrap();
    let group = parsed.attributes().group_at(0);
    let li = group.find_attribute(&b"last-document".to_vec()).unwrap();
    assert_eq!(group.attribute_at(li).value(), &IppValue::Boolean(true));
    assert_eq!(parsed.payload().as_ref().unwrap(), &b"rest".to_vec());

    assert_eq!(
        IppOperationBuilder::validate_job(&uri).header().operation_or_status,
        0x0004
    );
    assert_eq!(
        IppOperationBuilder::create_job(&uri).header().operation_or_status,
        0x0005
    );
    assert_eq!(
        IppOperationBuilder::get_jobs(&uri).header().operation_or_status,
        0x000A
    );
    assert_eq!(
        IppOperationBuilder::cups().get_default().header().operation_or_status,
        0x4001
    );
    assert_eq!(
        IppOperationBuilder::cups().get_classes().header().operation_or_status,
        0x4005
    );
    assert_eq!(Operation::CupsGetPrinters.code(), 0x4002);
}

#[test]
fn print_job_extra_attributes_go_to_job_group() {
    let req = IppOperationBuilder::print_job(
        b"ipp://host/printer".to_vec(),
        b"doc".to_vec(),
    )
    .attribute(IppAttribute::new(b"copies".to_vec(), IppValue::Integer(2)))
    .attribute(IppAttribute::new(
        b"media".to_vec(),
        IppValue::Keyword(b"iso-a4".to_vec()),
    ))
    .build();
    let attrs = req.attributes();
    let gi = attrs.find_group_from(0x02, 0).unwrap();
    let group = attrs.group_at(gi);
    assert_eq!(group.len(), 2);
    assert_eq!(group.attribute_at(0).name(), &b"copies".to_vec());
    assert_eq!(group.attribute_at(1).name(), &b"media".to_vec());
}

#[test]
fn readiness_classification() {
    let no_reasons: Vec<Vec<u8>> = vec![];
    assert!(check_printer_ready(3, true, &no_reasons));
    assert!(check_printer_ready(4, true, &no_reasons));
    assert!(!check_printer_ready(5, true, &no_reasons));
    assert!(!check_printer_ready(3, false, &no_reasons));
    let benign = vec![b"none".to_vec(), b"toner-low-report".to_vec()];
    assert!(check_printer_ready(3, true, &benign));
    let bad = vec![b"media-needed".to_vec()];
    assert!(!check_printer_ready(3, true, &bad));
}

fn readiness_response(state: i32, accepting: bool, reasons: &[&[u8]]) -> IppRequestResponse {
    let mut resp = IppRequestResponse::new_response(0, 4);
    resp.set_attribute(
        DelimiterTag::PrinterAttributes,
        IppAttribute::new(b"printer-state".to_vec(), IppValue::Enum(state)),
    );
    resp.set_attribute(
        DelimiterTag::PrinterAttributes,
        IppAttribute::new(
            b"printer-is-accepting-jobs".to_vec(),
            IppValue::Boolean(accepting),
        ),
    );
    if !reasons.is_empty() {
        let values: Vec<IppValue> = reasons
            .iter()
            .map(|r| IppValue::Keyword(r.to_vec()))
            .collect();
        resp.set_attribute(
            DelimiterTag::PrinterAttributes,
            IppAttribute::with_values(b"printer-state-reasons".to_vec(), values),
        );
    }
    resp
}

#[test]
fn evaluate_printer_status_decides_readiness() {
    assert_eq!(
        evaluate_printer_status(&readiness_response(3, true, &[])),
        Ok(())
    );
    let r = evaluate_printer_status(&readiness_response(5, true, &[b"media-jam".as_slice()]));
    match r {
        Err(IppError::PrinterStateError { state, accepting, reasons }) => {
            assert_eq!(state, 5);
            assert!(accepting);
            assert_eq!(reasons, vec![b"media-jam".to_vec()]);
        },
        other => panic!("expected a printer-state error, got {:?}", other),
    }
    assert_eq!(
        evaluate_printer_status(&readiness_response(3, false, &[])),
        Err(IppError::PrinterStateError {
            state: 3,
            accepting: false,
            reasons: vec![],
        })
    );
    let missing = IppRequestResponse::new_response(0, 5);
    assert_eq!(
        evaluate_printer_status(&missing),
        Err(IppError::MissingAttribute)
    );
}

#[test]
fn status_code_classes() {
    assert_eq!(status_class(0x0000), StatusClass::Successful);
    assert_eq!(status_class(0x00FF), StatusClass::Successful);
    assert_eq!(status_class(0x0100), StatusClass::Informational);
    assert_eq!(status_class(0x0200), StatusClass::Redirection);
    assert_eq!(status_class(0x0300), StatusClass::Unknown);
    assert_eq!(status_class(0x0400), StatusClass::ClientError);
    assert_eq!(status_class(0x04FF), StatusClass::ClientError);
    assert_eq!(status_class(0x0500), StatusClass::ServerError);
    assert_eq!(status_class(0x0600), StatusClass::Unknown);
    assert!(!is_error_status(0x0000));
    assert!(is_error_status(0x0400));
    assert!(is_error_status(0x0501));
}
