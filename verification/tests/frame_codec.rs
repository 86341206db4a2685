//! Frame and bit codec behaviour on concrete wire data.

use shdp::bits::BitOrder;
use shdp::decoder::{BitDecoder, FrameDecoder};
use shdp::encoder::{BitEncoder, FrameEncoder};
use shdp::errors::ErrorKind;
use shdp::versions::Version;

#[test]
fn frame_decoding_test() {
    let mut builder = BitEncoder::new(BitOrder::Lsb0);
    builder.add_data(1, 8).unwrap();
    builder.add_data(0, 16).unwrap();
    builder.add_data(32, 32).unwrap();
    builder.add_bytes("test".as_bytes()).unwrap();

    let decoder = BitDecoder::new(builder.encode(), BitOrder::Msb0);
    let data = FrameDecoder::new(decoder.clone()).decode().unwrap();

    assert_eq!(data.version, 1);
    assert_eq!(data.event, 0);
    assert_eq!(data.data_size, 32);
}

#[test]
fn frame_error_decoding_test() {
    let mut builder = BitEncoder::new(BitOrder::Lsb0);
    builder.add_data(1, 2).unwrap();
    builder.add_data(0, 7).unwrap();
    builder.add_data(2, 3).unwrap();
    builder.add_bytes("test".as_bytes()).unwrap();

    let decoder = BitDecoder::new(builder.encode(), BitOrder::Msb0);

    assert_eq!(FrameDecoder::new(decoder.clone()).decode().is_err(), true);

    let err = FrameDecoder::new(decoder.clone()).decode().unwrap_err();

    assert_eq!(err.code, 0b1000);
    assert!(matches!(err.kind, ErrorKind::SizeConstraintViolation));
}

#[test]
fn header_wire_prefix() {
    // S1: version 1, event 0, 32 payload bits of ASCII `test`.
    let mut builder = BitEncoder::new(BitOrder::Lsb0);
    builder.add_data(1, 8).unwrap();
    builder.add_data(0, 16).unwrap();
    builder.add_data(32, 32).unwrap();
    builder.add_bytes("test".as_bytes()).unwrap();
    let wire = builder.encode();

    assert_eq!(&wire[..7], &[0x01, 0x00, 0x00, 0x00, 0x00, 0x00, 0x20]);
    assert_eq!(&wire[7..], &[0x74, 0x65, 0x73, 0x74]);

    let mut decoder = BitDecoder::new(wire, BitOrder::Msb0);
    let mut frame_decoder = FrameDecoder::new(decoder.clone());
    let frame = frame_decoder.decode().unwrap();
    assert_eq!(frame.version, 1);
    assert_eq!(frame.event, 0);
    assert_eq!(frame.data_size, 32);
    decoder = frame_decoder.get_decoder().clone();
    let mut payload = Vec::new();
    for _ in 0..4 {
        payload.push(decoder.read_data(8).unwrap() as u8);
    }
    assert_eq!(payload, vec![0x74, 0x65, 0x73, 0x74]);
}

#[test]
fn oversized_field_is_rejected() {
    // S2: a 33-bit field violates the size constraint with code 0b1000.
    let mut builder = BitEncoder::new(BitOrder::Lsb0);
    let err = builder.add_data(1, 33).unwrap_err();
    assert_eq!(err.code, 0b1000);
    assert!(matches!(err.kind, ErrorKind::SizeConstraintViolation));
}

#[test]
fn read_past_end_is_rejected() {
    let mut decoder = BitDecoder::new(vec![0b0000_0001], BitOrder::Msb0);
    let err = decoder.read_data(16).unwrap_err();
    assert_eq!(err.code, 0b1000);
    assert!(matches!(err.kind, ErrorKind::SizeConstraintViolation));
    assert_eq!(decoder.read_data(8).unwrap(), 1);
}

#[test]
fn slice_past_end_is_rejected() {
    let decoder = BitDecoder::new(vec![0b0000_0001], BitOrder::Msb0);
    let err = decoder.read_vec(8, 16).unwrap_err();
    assert_eq!(err.code, 0b1100);
    assert!(matches!(err.kind, ErrorKind::SizeConstraintViolation));
    assert_eq!(decoder.read_vec(0, 8).unwrap().len(), 8);
}

#[test]
fn unknown_versions_are_rejected() {
    // P6: byte 0 and every byte outside the known set map to UnknownVersion.
    let err = Version::from_u8(0).unwrap_err();
    assert_eq!(err.code, 0b1010);
    assert!(matches!(err.kind, ErrorKind::UnknownVersion));
    let err = Version::from_u8(2).unwrap_err();
    assert!(matches!(err.kind, ErrorKind::UnknownVersion));
    assert_eq!(Version::from_u8(1).unwrap().to_u8(), 1);

    let err = FrameEncoder::new(0).unwrap_err();
    assert_eq!(err.code, 0b1010);
    assert!(matches!(err.kind, ErrorKind::UnknownVersion));
}

#[test]
fn opposite_orders_reverse_bits_within_bytes() {
    let mut lsb = BitEncoder::new(BitOrder::Lsb0);
    let mut msb = BitEncoder::new(BitOrder::Msb0);
    lsb.add_data(0b1011_0010, 8).unwrap();
    lsb.add_data(0b110, 3).unwrap();
    msb.add_data(0b1011_0010, 8).unwrap();
    msb.add_data(0b110, 3).unwrap();
    let a = lsb.encode();
    let b = msb.encode();
    assert_eq!(a.len(), b.len());
    for k in 0..a.len() {
        assert_eq!(a[k], b[k].reverse_bits());
    }
}

#[test]
fn bit_order_opposites() {
    assert!(matches!(BitOrder::Msb0.opposite(), BitOrder::Lsb0));
    assert!(matches!(BitOrder::Lsb0.opposite(), BitOrder::Msb0));
}

#[test]
fn buffers_concatenate() {
    let mut a = BitEncoder::new(BitOrder::Lsb0);
    a.add_data(0b101, 3).unwrap();
    let mut b = BitEncoder::new(BitOrder::Lsb0);
    b.add_data(0b01011, 5).unwrap();
    a.append_data_from(&b);
    a.add_bitvec(&vec![true, false, false, false, false, false, false, true]).unwrap();
    let wire = a.encode();
    assert_eq!(wire, vec![0b1010_1011, 0b1000_0001]);
}

#[test]
fn empty_payload_parses_as_empty_frame() {
    // A declared size of zero does not cross the end of the buffer, so
    // the frame parses with an empty payload.
    let mut builder = BitEncoder::new(BitOrder::Lsb0);
    builder.add_data(1, 8).unwrap();
    builder.add_data(3, 16).unwrap();
    builder.add_data(0, 32).unwrap();
    let decoder = BitDecoder::new(builder.encode(), BitOrder::Msb0);
    let frame = FrameDecoder::new(decoder).decode().unwrap();
    assert_eq!(frame.event, 3);
    assert_eq!(frame.data_size, 0);
    assert_eq!(frame.data.len(), 0);
}
