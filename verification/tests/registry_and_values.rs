//! Registry semantics, dispatch planning, the fyve alphabet, and the
//! argument type.

use shdp::args::Arg;
use shdp::bits::BitOrder;
use shdp::decoder::{BitDecoder, FrameDecoder};
use shdp::encoder::BitEncoder;
use shdp::errors::{Error, ErrorKind};
use shdp::fyve::FyveImpl;
use shdp::registry::EventRegistry;
use shdp::client::dispatch::{
    default_client_registry_lsb, default_client_registry_msb, make_response, ClientFactory,
    ClientResponse,
};
use shdp::server::dispatch::{default_server_registry, ResponseStep, ServerFactory};

#[test]
fn unknown_event_routes_to_not_found() {
    // S6: version 1, event 0xBEEF has no factory; the transport answers
    // with a 0x0002 error response carrying (404, "Event not found").
    let registry = default_server_registry::<u8>();
    let err = registry.route(1, 0xBEEF).unwrap_err();
    assert_eq!(err.code, 404);
    assert!(matches!(err.kind, ErrorKind::NotFound));
    assert_eq!(err.message, "Event not found".to_string());

    let wire = shdp::server::dispatch::answer_error(1, err).unwrap();
    let decoder = BitDecoder::new(wire, BitOrder::Msb0);
    let mut frame_decoder = FrameDecoder::new(decoder);
    let frame = frame_decoder.decode().unwrap();
    assert_eq!(frame.event, 0x0002);
    let mut decoded = shdp::client::r0x0002::ErrorResponse::new(
        frame_decoder.get_decoder().clone(),
    );
    decoded.decode(&frame).unwrap();
    assert_eq!(decoded.code, 404);
    assert_eq!(decoded.message, "Event not found".to_string());
}

#[test]
fn registry_lookups_are_functional() {
    let mut registry: EventRegistry<u32, u32> = EventRegistry::new();
    assert!(registry.get_event((1, 7)).is_none());
    registry.add_event((1, 7), 10);
    registry.add_listener((1, 7), 20);
    assert_eq!(*registry.get_event((1, 7)).unwrap(), 10);
    assert_eq!(*registry.get_listener((1, 7)).unwrap(), 20);
    // An insertion replaces: at most one factory per key at any instant.
    registry.add_event((1, 7), 11);
    assert_eq!(*registry.get_event((1, 7)).unwrap(), 11);
    assert_eq!(*registry.get_event((1, 7)).unwrap(), 11);
    assert!(registry.get_event((2, 7)).is_none());
    assert!(registry.get_listener((1, 8)).is_none());
}

#[test]
fn default_registry_routes_known_events() {
    let registry = default_server_registry::<u8>();
    assert!(matches!(
        registry.route(1, 0x0000).unwrap(),
        ServerFactory::ComponentNeeds
    ));
    assert!(matches!(registry.route(1, 0x0005).unwrap(), ServerFactory::Interaction));
    assert!(registry.route(2, 0x0000).is_err());
}

#[test]
fn component_request_plans_responses() {
    let decoder = BitDecoder::new(Vec::new(), BitOrder::Msb0);
    let mut request = shdp::server::r0x0000::ComponentNeedsRequest::new(decoder);
    request.requested_component_name = "menu".to_string();
    let args = vec![
        Arg::OptionText(Some("Menu".to_string())),
        Arg::VecText(vec!["www/menu.html".to_string(), "www/menu.css".to_string()]),
    ];
    let steps = request.get_responses(&args).unwrap();
    assert_eq!(steps.len(), 3);
    match &steps[0] {
        ResponseStep::Ready(shdp::server::dispatch::ServerResponse::ComponentNeeds(first)) => {
            assert_eq!(first.component_name, "menu".to_string());
            assert_eq!(first.title, Some("Menu".to_string()));
            assert_eq!(first.files, vec!["menu.html".to_string(), "menu.css".to_string()]);
        },
        _ => panic!("first step must be the component description"),
    }
    assert!(matches!(&steps[1], ResponseStep::LoadHtml(p) if p == "www/menu.html"));
    assert!(matches!(&steps[2], ResponseStep::LoadFyve(p) if p == "www/menu.css"));
}

#[test]
fn component_request_rejects_wrong_arguments() {
    let decoder = BitDecoder::new(Vec::new(), BitOrder::Msb0);
    let request = shdp::server::r0x0000::ComponentNeedsRequest::new(decoder);
    let err = request.get_responses(&vec![Arg::U8(1), Arg::U8(2)]).unwrap_err();
    assert_eq!(err.code, 500);
    assert!(matches!(err.kind, ErrorKind::InternalServerError));
}

#[test]
fn fyve_alphabet_roundtrips() {
    // P2 on concrete values: every character of the alphabet survives an
    // emit and a read.
    let alphabet = " taeinorsdl-\"cpf>=.v<um;g:/hyxbk)(wE#}{0NA2R1TDOIS_PL64,zMCBG%j3U8*59+F|WV@q'QH!][7ZYXJ^K?$\\~`&";
    for c in alphabet.chars() {
        let (code, width) = FyveImpl::get_fyve(c).unwrap();
        let mut enc = BitEncoder::new(BitOrder::Lsb0);
        enc.add_data(code, width).unwrap();
        let mut decoder = BitDecoder::new(enc.encode(), BitOrder::Msb0);
        let op = FyveImpl::get_op(&mut decoder).unwrap();
        assert_eq!(op.get_char().unwrap(), c);
    }
}

#[test]
fn fyve_system_pair_reads_back() {
    let mut enc = BitEncoder::new(BitOrder::Lsb0);
    enc.add_data(0x10, 10).unwrap();
    let mut decoder = BitDecoder::new(enc.encode(), BitOrder::Msb0);
    let op = FyveImpl::get_op(&mut decoder).unwrap();
    assert!(matches!(op.kind, shdp::fyve::OperatingCode::System));
    assert!(matches!(op.code, Some(shdp::fyve::OperationCode::StartOfTag)));
}

#[test]
fn fyve_unknown_value_is_rejected() {
    // Code 31 alone is the continuation sentinel; 31 followed by 31s runs
    // into the four-chunk cap and the value is not in the alphabet.
    let mut enc = BitEncoder::new(BitOrder::Lsb0);
    enc.add_data(0b11111_11111_11111_11111, 20).unwrap();
    let mut decoder = BitDecoder::new(enc.encode(), BitOrder::Msb0);
    let op = FyveImpl::get_op(&mut decoder).unwrap();
    let err = op.get_char().unwrap_err();
    assert_eq!(err.code, 400);
    assert!(matches!(err.kind, ErrorKind::BadRequest));
}

#[test]
fn arg_from_string_cases() {
    assert!(matches!(Arg::from_string("0x10"), Arg::U32(16)));
    assert!(matches!(Arg::from_string("5"), Arg::U8(5)));
    assert!(matches!(Arg::from_string("007"), Arg::U8(7)));
    assert!(matches!(Arg::from_string("300"), Arg::U16(300)));
    assert!(matches!(Arg::from_string("70000"), Arg::U32(70000)));
    assert!(matches!(Arg::from_string("4294967296"), Arg::Text(_)));
    assert!(matches!(Arg::from_string("true"), Arg::Boolean(true)));
    assert!(matches!(Arg::from_string("false"), Arg::Boolean(false)));
    match Arg::from_string("hello") {
        Arg::Text(s) => assert_eq!(s, "hello".to_string()),
        _ => panic!("plain text must stay text"),
    }
    match Arg::from_string("0xZZ") {
        Arg::Text(s) => assert_eq!(s, "0xZZ".to_string()),
        _ => panic!("a broken hex numeral must stay text"),
    }
}

#[test]
fn arg_to_string_cases() {
    assert_eq!(Arg::U8(7).to_string(), "7".to_string());
    assert_eq!(Arg::U64(1234567890123).to_string(), "1234567890123".to_string());
    assert_eq!(Arg::Boolean(true).to_string(), "true".to_string());
    assert_eq!(
        Arg::VecText(vec!["a".to_string(), "b".to_string(), "c".to_string()]).to_string(),
        "a, b, c".to_string()
    );
    assert_eq!(Arg::OptionText(None).to_string(), String::new());
    assert_eq!(Arg::Text("x".to_string()).to_string(), "x".to_string());
}

#[test]
fn arg_accessors_check_the_variant() {
    assert_eq!(Arg::U8(3).to_u8().unwrap(), 3);
    assert_eq!(Arg::U16(300).to_u16().unwrap(), 300);
    assert_eq!(Arg::U32(70000).to_u32().unwrap(), 70000);
    assert_eq!(Arg::U64(7).to_u64().unwrap(), 7);
    assert_eq!(Arg::Boolean(true).to_bool().unwrap(), true);
    assert_eq!(
        Arg::VecText(vec!["a".to_string()]).to_vec_text().unwrap(),
        vec!["a".to_string()]
    );
    assert_eq!(
        Arg::OptionText(Some("t".to_string())).to_option_text().unwrap(),
        Some("t".to_string())
    );
    assert_eq!(
        Arg::OptionValue(Some("{}".to_string())).to_option_value().unwrap(),
        Some("{}".to_string())
    );
    let err = Arg::U8(3).to_bool().unwrap_err();
    assert_eq!(err.code, 500);
    assert!(matches!(err.kind, ErrorKind::InternalServerError));
}

#[test]
fn error_kind_names() {
    assert_eq!(ErrorKind::NotFound.to_text(), "NotFound".to_string());
    assert_eq!(
        ErrorKind::SizeConstraintViolation.to_text(),
        "SizeConstraintViolation".to_string()
    );
    assert_eq!(
        ErrorKind::UserDefined("broken pipe".to_string()).to_text(),
        "broken pipe".to_string()
    );
    let e = Error { code: 0, message: "wrapped".to_string(), kind: ErrorKind::ProtocolError };
    assert_eq!(e.code, 0);
}

#[test]
fn error_reads_as_one_line() {
    let e = Error {
        code: 404,
        message: "Not Found".to_string(),
        kind: ErrorKind::NotFound,
    };
    assert_eq!(e.to_text(), "Error: [NotFound]:404 -> Not Found".to_string());
}

#[test]
fn certificate_keeps_its_paths() {
    let c = shdp::transport::Certificate::new(
        "tls/cert.pem".to_string(),
        "tls/key.pem".to_string(),
    );
    assert_eq!(c.cert_path, "tls/cert.pem".to_string());
    assert_eq!(c.key_path, "tls/key.pem".to_string());
}

#[test]
fn interaction_request_plans_its_answer() {
    let decoder = BitDecoder::new(Vec::new(), BitOrder::Msb0);
    let mut request = shdp::server::r0x0005::InteractionRequest::new(decoder);
    request.request_id = 7;
    let args = vec![Arg::OptionValue(Some("{\"ok\":true}".to_string()))];
    let steps = request.get_responses(&args).unwrap();
    assert_eq!(steps.len(), 1);
    match &steps[0] {
        ResponseStep::Ready(shdp::server::dispatch::ServerResponse::Interaction(resp)) => {
            assert_eq!(resp.request_id, 7);
            assert_eq!(resp.response, Some("{\"ok\":true}".to_string()));
        },
        _ => panic!("the single step must be the interaction answer"),
    }
}

#[test]
fn client_registries_route_by_bit_order() {
    let msb = default_client_registry_msb::<u8>();
    let lsb = default_client_registry_lsb::<u8>();
    assert!(matches!(msb.get_event((1, 0x0001)), Some(ClientFactory::Html)));
    assert!(matches!(msb.get_event((1, 0x0004)), Some(ClientFactory::FullFyve)));
    assert!(msb.get_event((1, 0x0002)).is_none());
    assert!(matches!(lsb.get_event((1, 0x0002)), Some(ClientFactory::Error)));
    assert!(matches!(lsb.get_event((1, 0x0003)), Some(ClientFactory::ComponentNeeds)));
    assert!(matches!(lsb.get_event((1, 0x0006)), Some(ClientFactory::Interaction)));

    let decoder = BitDecoder::new(Vec::new(), BitOrder::Msb0);
    let holder = make_response(&ClientFactory::Error, decoder);
    assert!(matches!(holder, ClientResponse::Error(_)));
}
