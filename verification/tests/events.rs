//! Full encode/decode tracks through the version-1 event catalogue.

use shdp::bits::BitOrder;
use shdp::decoder::{BitDecoder, Frame, FrameDecoder};
use shdp::encoder::FrameEncoder;
use shdp::errors::{Error, ErrorKind};
use shdp::html::{HtmlContent, HtmlTag};
use shdp::versions::Version;

fn roundtrip<E: shdp::encoder::EventEncoder>(event: &mut E) -> (Frame, BitDecoder) {
    let mut encoder = FrameEncoder::new(Version::V1.to_u8()).unwrap();
    let wire = encoder.encode(event).unwrap();
    let decoder = BitDecoder::new(wire, BitOrder::Msb0);
    let mut frame_decoder = FrameDecoder::new(decoder);
    let frame = frame_decoder.decode().unwrap();
    let decoder = frame_decoder.get_decoder().clone();
    (frame, decoder)
}

#[test]
fn t0x0000_event_decoding_full_track_test() {
    let mut request = shdp::client::c0x0000::ComponentNeedsRequest::new("test".to_string());
    let (frame, decoder) = roundtrip(&mut request);
    assert_eq!(frame.event, 0x0000);

    let mut decoded = shdp::server::r0x0000::ComponentNeedsRequest::new(decoder);
    decoded.decode(&frame).unwrap();

    assert_eq!(decoded.requested_component_name, "test".to_string());
}

#[test]
fn t0x0005_event_decoding_full_track_test() {
    let mut request = shdp::client::c0x0005::InteractionRequest::new(
        0,
        "test".to_string(),
        "Test".to_string(),
        None,
        None,
        None,
    );
    let (frame, decoder) = roundtrip(&mut request);
    assert_eq!(frame.event, 0x0005);

    let mut decoded = shdp::server::r0x0005::InteractionRequest::new(decoder);
    decoded.decode(&frame).unwrap();

    assert_eq!(decoded.request_id, 0);
    assert_eq!(decoded.function_name, "test".to_string());
    assert_eq!(decoded.parent_name, "Test".to_string());
    assert_eq!(decoded.params, None);
    assert_eq!(decoded.object_id, None);
    assert_eq!(decoded.token, None);
}

#[test]
fn interaction_request_full_fields_roundtrip() {
    let mut request = shdp::client::c0x0005::InteractionRequest::new(
        0x1_0000_0002,
        "get_message".to_string(),
        "users".to_string(),
        Some(-12),
        Some("{\"a\":1}".to_string()),
        Some("tok123".to_string()),
    );
    let (frame, decoder) = roundtrip(&mut request);

    let mut decoded = shdp::server::r0x0005::InteractionRequest::new(decoder);
    decoded.decode(&frame).unwrap();

    assert_eq!(decoded.request_id, 0x1_0000_0002);
    assert_eq!(decoded.function_name, "get_message".to_string());
    assert_eq!(decoded.parent_name, "users".to_string());
    assert_eq!(decoded.object_id, Some(-12));
    assert_eq!(decoded.params, Some("{\"a\":1}".to_string()));
    assert_eq!(decoded.token, Some("tok123".to_string()));
}

#[test]
fn interaction_request_rejects_bad_json_params() {
    let mut request = shdp::client::c0x0005::InteractionRequest::new(
        7,
        "f".to_string(),
        "p".to_string(),
        None,
        Some("{bad".to_string()),
        None,
    );
    let (frame, decoder) = roundtrip(&mut request);
    let mut decoded = shdp::server::r0x0005::InteractionRequest::new(decoder);
    let err = decoded.decode(&frame).unwrap_err();
    assert_eq!(err.code, 400);
    assert!(matches!(err.kind, ErrorKind::BadRequest));
}

#[test]
fn t0x0006_event_decoding_full_track_test() {
    let mut response = shdp::server::c0x0006::InteractionResponse::new(
        0,
        Some("{\"test\":5}".to_string()),
    );
    let (frame, decoder) = roundtrip(&mut response);
    assert_eq!(frame.event, 0x0006);

    let mut decoded = shdp::client::r0x0006::InteractionResponse::new(decoder);
    decoded.decode(&frame).unwrap();

    assert_eq!(decoded.request_id, 0);
    assert!(decoded.response.is_some());
    let value: serde_json::Value = serde_json::from_str(decoded.response.as_ref().unwrap())
        .unwrap();
    let v = value.as_object().unwrap();
    assert_eq!(v.get("test").unwrap().as_i64().unwrap(), 5);
}

#[test]
fn interaction_response_bad_json_reads_as_null() {
    let mut response = shdp::server::c0x0006::InteractionResponse::new(
        9,
        Some("{not json".to_string()),
    );
    let (frame, decoder) = roundtrip(&mut response);
    let mut decoded = shdp::client::r0x0006::InteractionResponse::new(decoder);
    decoded.decode(&frame).unwrap();
    assert_eq!(decoded.request_id, 9);
    assert_eq!(decoded.response, Some("null".to_string()));
}

#[test]
fn t0x0001_event_decoding_full_track_test() {
    // S7: <html>Test</html> travels as name fyves and one text run.
    let mut root = HtmlTag::new("html".to_string());
    root.add_data(HtmlContent::Text("Test".to_string()));
    let mut response = shdp::server::c0x0001::HtmlFileResponse::new(
        "test.html".to_string(),
        root,
    );
    let (frame, decoder) = roundtrip(&mut response);
    assert_eq!(frame.event, 0x0001);

    let mut decoded = shdp::client::r0x0001::HtmlFileResponse::new(decoder);
    decoded.decode(&frame).unwrap();

    assert_eq!(decoded.name, "test.html".to_string());
    assert_eq!(decoded.parent.data.len(), 1);
    let child = decoded.parent.data[0].get_child();
    assert_eq!(child.get_name(), "html".to_string());
    assert_eq!(child.attributes.len(), 0);
    assert_eq!(child.data.len(), 1);
    assert_eq!(child.data[0].get_text(), "Test".to_string());
}

#[test]
fn html_attributes_roundtrip() {
    let mut root = HtmlTag::new("div".to_string());
    root.add_attribute("id".to_string(), "main menu".to_string());
    root.add_data(HtmlContent::Text("hi".to_string()));
    let mut response = shdp::server::c0x0001::HtmlFileResponse::new("a.html".to_string(), root);
    let (frame, decoder) = roundtrip(&mut response);

    let mut decoded = shdp::client::r0x0001::HtmlFileResponse::new(decoder);
    decoded.decode(&frame).unwrap();

    let child = decoded.parent.data[0].get_child();
    assert_eq!(child.get_name(), "div".to_string());
    assert_eq!(child.attributes.len(), 1);
    assert_eq!(child.attributes[0].0, "id".to_string());
    assert_eq!(child.attributes[0].1, "main menu".to_string());
    assert_eq!(child.data[0].get_text(), "hi".to_string());
}

#[test]
fn html_rejects_name_outside_alphabet() {
    let root = HtmlTag::new("caf\u{00e9}".to_string());
    let mut response = shdp::server::c0x0001::HtmlFileResponse::new("a.html".to_string(), root);
    let mut encoder = FrameEncoder::new(1).unwrap();
    let err = encoder.encode(&mut response).unwrap_err();
    assert_eq!(err.code, 400);
    assert!(matches!(err.kind, ErrorKind::BadRequest));
}

#[test]
fn error_response_roundtrip() {
    let mut response = shdp::server::c0x0002::ErrorResponse::new(Error {
        code: 404,
        message: "Not Found".to_string(),
        kind: ErrorKind::NotFound,
    });
    let (frame, decoder) = roundtrip(&mut response);
    assert_eq!(frame.event, 0x0002);

    let mut decoded = shdp::client::r0x0002::ErrorResponse::new(decoder);
    decoded.decode(&frame).unwrap();
    assert_eq!(decoded.code, 404);
    assert_eq!(decoded.message, "Not Found".to_string());
}

#[test]
fn component_needs_response_roundtrip() {
    let mut response = shdp::server::c0x0003::ComponentNeedsResponse::new(
        "menu".to_string(),
        Some("Menu".to_string()),
        vec!["menu.html".to_string(), "menu.css".to_string()],
    );
    let (frame, decoder) = roundtrip(&mut response);
    assert_eq!(frame.event, 0x0003);

    let mut decoded = shdp::client::r0x0003::ComponentNeedsResponse::new(decoder);
    decoded.decode(&frame).unwrap();
    assert_eq!(decoded.component_name, "menu".to_string());
    // The title travels behind a zero byte like the file names, while the
    // reader only finds a title behind a 0x01 byte; an emitted title
    // therefore reads back as the first name of the list.
    assert_eq!(decoded.title, None);
    assert_eq!(
        decoded.files,
        vec!["Menu".to_string(), "menu.html".to_string(), "menu.css".to_string()]
    );
}

#[test]
fn component_needs_response_without_files() {
    let mut response = shdp::server::c0x0003::ComponentNeedsResponse::new(
        "menu".to_string(),
        None,
        Vec::new(),
    );
    let (frame, decoder) = roundtrip(&mut response);

    let mut decoded = shdp::client::r0x0003::ComponentNeedsResponse::new(decoder);
    decoded.decode(&frame).unwrap();
    // The single 0x01 byte splits the head into the name and an empty title.
    assert_eq!(decoded.component_name, "menu".to_string());
    assert_eq!(decoded.title, Some(String::new()));
    assert_eq!(decoded.files, Vec::<String>::new());
}

#[test]
fn full_fyve_roundtrip() {
    let mut response = shdp::server::c0x0004::FullFyveResponse::new(
        "notes.txt".to_string(),
        "test text 42?".to_string(),
    );
    let (frame, decoder) = roundtrip(&mut response);
    assert_eq!(frame.event, 0x0004);

    let mut decoded = shdp::client::r0x0004::FullFyveResponse::new(decoder);
    decoded.decode(&frame).unwrap();
    assert_eq!(decoded.filename, "notes.txt".to_string());
    assert_eq!(decoded.content, "test text 42?".to_string());
}

#[test]
fn full_fyve_rejects_character_outside_alphabet() {
    let mut response = shdp::server::c0x0004::FullFyveResponse::new(
        "notes.txt".to_string(),
        "caf\u{00e9}".to_string(),
    );
    let mut encoder = FrameEncoder::new(1).unwrap();
    let err = encoder.encode(&mut response).unwrap_err();
    assert_eq!(err.code, 400);
    assert!(matches!(err.kind, ErrorKind::BadRequest));
}

#[test]
fn component_request_rejects_invalid_utf8() {
    let mut builder = shdp::encoder::BitEncoder::new(BitOrder::Lsb0);
    builder.add_data(1, 8).unwrap();
    builder.add_data(0, 16).unwrap();
    builder.add_data(16, 32).unwrap();
    builder.add_data(0xFF, 8).unwrap();
    builder.add_data(0xFE, 8).unwrap();
    let decoder = BitDecoder::new(builder.encode(), BitOrder::Msb0);
    let mut frame_decoder = FrameDecoder::new(decoder);
    let frame = frame_decoder.decode().unwrap();
    let mut decoded = shdp::server::r0x0000::ComponentNeedsRequest::new(
        frame_decoder.get_decoder().clone(),
    );
    let err = decoded.decode(&frame).unwrap_err();
    assert_eq!(err.code, 400);
    assert!(matches!(err.kind, ErrorKind::BadRequest));
}

#[test]
fn fyve_file_without_name_terminator_is_rejected() {
    let mut builder = shdp::encoder::BitEncoder::new(BitOrder::Lsb0);
    builder.add_data(1, 8).unwrap();
    builder.add_data(4, 16).unwrap();
    builder.add_data(16, 32).unwrap();
    builder.add_data(0x41, 8).unwrap();
    builder.add_data(0x42, 8).unwrap();
    let decoder = BitDecoder::new(builder.encode(), BitOrder::Msb0);
    let mut frame_decoder = FrameDecoder::new(decoder);
    let frame = frame_decoder.decode().unwrap();
    let mut decoded = shdp::client::r0x0004::FullFyveResponse::new(
        frame_decoder.get_decoder().clone(),
    );
    let err = decoded.decode(&frame).unwrap_err();
    assert_eq!(err.code, 0b1000);
    assert!(matches!(err.kind, ErrorKind::SizeConstraintViolation));
}

#[test]
fn interaction_request_needs_five_fields() {
    // Only the id and two name fields: three zero-separated fields, not
    // five.
    let mut builder = shdp::encoder::BitEncoder::new(BitOrder::Lsb0);
    builder.add_data(1, 8).unwrap();
    builder.add_data(5, 16).unwrap();
    builder.add_data(64 + 32, 32).unwrap();
    builder.add_data(0, 32).unwrap();
    builder.add_data(0, 32).unwrap();
    builder.add_data(0x61, 8).unwrap();
    builder.add_data(0, 8).unwrap();
    builder.add_data(0x62, 8).unwrap();
    builder.add_data(0, 8).unwrap();
    let decoder = BitDecoder::new(builder.encode(), BitOrder::Msb0);
    let mut frame_decoder = FrameDecoder::new(decoder);
    let frame = frame_decoder.decode().unwrap();
    let mut decoded = shdp::server::r0x0005::InteractionRequest::new(
        frame_decoder.get_decoder().clone(),
    );
    let err = decoded.decode(&frame).unwrap_err();
    assert_eq!(err.code, 400);
    assert!(matches!(err.kind, ErrorKind::BadRequest));
}
