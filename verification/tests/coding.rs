use moq::coding::bytes::decode_bytes_at;
use moq::coding::bytes::encode_bytes;
use moq::coding::code::decode_code_at;
use moq::coding::code::encode_code;
use moq::coding::numbers::decode_numbers_at;
use moq::coding::numbers::encode_numbers;
use moq::coding::params::Params;
use moq::coding::string::decode_string_at;
use moq::coding::string::encode_string;
use moq::coding::varint::encode_varint;
use moq::coding::varint::VARINT_MAX;
use moq::error::Closed;
use moq::error::DecodeError;
use moq::error::EncodeError;
use moq::message::position::decode_position_at;
use moq::message::position::encode_position;
use moq::message::position::Position;

#[test]
fn bytes_are_length_prefixed() {
    let mut out = Vec::new();
    encode_bytes(&[0xde, 0xad, 0xbe, 0xef], &mut out).unwrap();
    assert_eq!(out, vec![0x04, 0xde, 0xad, 0xbe, 0xef]);
    assert_eq!(
        decode_bytes_at(&out, 0),
        Ok((vec![0xde, 0xad, 0xbe, 0xef], 5))
    );
}

#[test]
fn bytes_of_length_zero() {
    let mut out = Vec::new();
    encode_bytes(&[], &mut out).unwrap();
    assert_eq!(out, vec![0x00]);
    assert_eq!(decode_bytes_at(&out, 0), Ok((vec![], 1)));
}

#[test]
fn bytes_with_a_two_byte_length() {
    let payload = vec![7u8; 300];
    let mut out = Vec::new();
    encode_bytes(&payload, &mut out).unwrap();
    assert_eq!(&out[..2], &[0x41, 0x2c]);
    assert_eq!(out.len(), 302);
    assert_eq!(decode_bytes_at(&out, 0), Ok((payload, 302)));
}

#[test]
fn bytes_cut_short_are_missing_field() {
    assert_eq!(decode_bytes_at(&[], 0), Err(DecodeError::MissingField));
    assert_eq!(
        decode_bytes_at(&[0x03, 1, 2], 0),
        Err(DecodeError::MissingField)
    );
    assert_eq!(
        decode_bytes_at(&[0xff, 0xff, 0xff, 0xff, 0xff, 0xff, 0xff, 0xff, 1], 0),
        Err(DecodeError::MissingField)
    );
}

#[test]
fn bytes_decode_from_a_position() {
    let buf = [0xaa, 0xbb, 0x02, 9, 8, 0xcc];
    assert_eq!(decode_bytes_at(&buf, 2), Ok((vec![9, 8], 5)));
    assert_eq!(decode_bytes_at(&buf, 6), Err(DecodeError::MissingField));
}

#[test]
fn string_round_trip_with_non_ascii() {
    let text = "vi\u{1ec7}t nam \u{1f680}";
    let mut out = Vec::new();
    encode_string(text, &mut out).unwrap();
    assert_eq!(out[0] as usize, text.len());
    assert_eq!(&out[1..], text.as_bytes());
    assert_eq!(
        decode_string_at(&out, 0),
        Ok((text.to_string(), out.len()))
    );
}

#[test]
fn string_exact_bytes() {
    let mut out = Vec::new();
    encode_string("test", &mut out).unwrap();
    assert_eq!(out, vec![0x04, b't', b'e', b's', b't']);
}

#[test]
fn string_that_is_not_utf8_is_invalid_string() {
    assert_eq!(
        decode_string_at(&[0x02, 0xc3, 0x28], 0),
        Err(DecodeError::InvalidString)
    );
    assert_eq!(
        decode_string_at(&[0x01, 0xff], 0),
        Err(DecodeError::InvalidString)
    );
    assert_eq!(
        decode_string_at(&[0x03, 0xed, 0xa0, 0x80], 0),
        Err(DecodeError::InvalidString)
    );
}

#[test]
fn string_cut_short_is_missing_field() {
    assert_eq!(
        decode_string_at(&[0x05, b'a', b'b'], 0),
        Err(DecodeError::MissingField)
    );
}

#[test]
fn code_above_32_bits_is_bounds_exceeded() {
    let mut wire = Vec::new();
    encode_varint(u32::MAX as u64 + 1, &mut wire).unwrap();
    assert_eq!(decode_code_at(&wire, 0), Err(DecodeError::BoundsExceeded));
    let mut wire = Vec::new();
    encode_varint(VARINT_MAX, &mut wire).unwrap();
    assert_eq!(decode_code_at(&wire, 0), Err(DecodeError::BoundsExceeded));
}

#[test]
fn code_round_trip() {
    for code in [0u32, 1, 404, 409, 65536, u32::MAX] {
        let mut wire = Vec::new();
        encode_code(code, &mut wire);
        assert_eq!(decode_code_at(&wire, 0), Ok((code, wire.len())));
    }
    let mut wire = Vec::new();
    encode_code(404, &mut wire);
    assert_eq!(wire, vec![0x41, 0x94]);
}

#[test]
fn closure_codes_are_stable() {
    assert_eq!(Closed::Done.code(), 0);
    assert_eq!(Closed::Cancel.code(), 1);
    assert_eq!(Closed::Replaced.code(), 2);
    assert_eq!(Closed::UnknownTrack.code(), 3);
    assert_eq!(Closed::NotFound.code(), 404);
    assert_eq!(Closed::Duplicate.code(), 409);
    assert_eq!(Closed::App(77).code(), 77);
}

#[test]
fn numbers_round_trip() {
    let list = vec![0xff00_0001u64, 1, 0, VARINT_MAX];
    let mut wire = Vec::new();
    encode_numbers(&list, &mut wire).unwrap();
    assert_eq!(wire[0], 4);
    assert_eq!(decode_numbers_at(&wire, 0), Ok((list, wire.len())));
}

#[test]
fn numbers_exact_bytes_and_errors() {
    let mut wire = Vec::new();
    encode_numbers(&[1, 64], &mut wire).unwrap();
    assert_eq!(wire, vec![0x02, 0x01, 0x40, 0x40]);
    let mut wire = vec![9];
    assert_eq!(
        encode_numbers(&[1, u64::MAX], &mut wire),
        Err(EncodeError::BoundsExceeded)
    );
    assert_eq!(wire, vec![9]);
    assert_eq!(
        decode_numbers_at(&[0x03, 0x01, 0x02], 0),
        Err(DecodeError::MissingField)
    );
    assert_eq!(decode_numbers_at(&[0x00], 0), Ok((vec![], 1)));
}

#[test]
fn params_round_trip_keeps_order_and_unknown_ids() {
    let mut params = Params::new();
    assert!(params.insert(9, vec![1, 2, 3]));
    assert!(params.insert(2, vec![]));
    assert!(params.insert(0x1234, vec![0xff]));
    let mut wire = Vec::new();
    params.encode(&mut wire).unwrap();
    assert_eq!(
        wire,
        vec![0x03, 0x09, 0x03, 1, 2, 3, 0x02, 0x00, 0x52, 0x34, 0x01, 0xff]
    );
    let (decoded, next) = Params::decode_at(&wire, 0).unwrap();
    assert_eq!(next, wire.len());
    assert_eq!(decoded, params);
    assert_eq!(decoded.len(), 3);
    assert_eq!(decoded.entry(0).id, 9);
    assert_eq!(decoded.entry(2).value, vec![0xff]);
    assert_eq!(decoded.get(2), Some(&vec![]));
    assert_eq!(decoded.get(3), None);
}

#[test]
fn params_insert_refuses_a_second_value() {
    let mut params = Params::new();
    assert!(params.insert(5, vec![1]));
    assert!(!params.insert(5, vec![2]));
    assert_eq!(params.len(), 1);
    assert_eq!(params.get(5), Some(&vec![1]));
    assert!(params.contains(5));
    assert_eq!(params.remove(5), Some(vec![1]));
    assert_eq!(params.remove(5), None);
    assert!(!params.contains(5));
}

#[test]
fn params_with_an_id_twice_are_duplicate_param() {
    let wire = [0x02, 0x07, 0x01, 0xaa, 0x07, 0x01, 0xbb];
    assert_eq!(
        Params::decode_at(&wire, 0),
        Err(DecodeError::DuplicateParam)
    );
}

#[test]
fn params_cut_short_are_missing_field() {
    assert_eq!(Params::decode_at(&[], 0), Err(DecodeError::MissingField));
    assert_eq!(
        Params::decode_at(&[0x02, 0x07, 0x01, 0xaa], 0),
        Err(DecodeError::MissingField)
    );
    assert_eq!(
        Params::decode_at(&[0x01, 0x07, 0x05, 0xaa], 0),
        Err(DecodeError::MissingField)
    );
}

#[test]
fn params_with_an_id_that_does_not_fit_are_refused() {
    let mut params = Params::new();
    params.insert(VARINT_MAX + 1, vec![]);
    let mut wire = vec![1, 2];
    assert!(!params.fits());
    assert_eq!(params.encode(&mut wire), Err(EncodeError::BoundsExceeded));
    assert_eq!(wire, vec![1, 2]);
}

#[test]
fn position_is_a_flag_and_two_numbers() {
    let mut wire = Vec::new();
    encode_position(&None, &mut wire).unwrap();
    assert_eq!(wire, vec![0x00]);
    assert_eq!(decode_position_at(&wire, 0), Ok((None, 1)));
    let at = Some(Position {
        group: 7,
        object: 300,
    });
    let mut wire = Vec::new();
    encode_position(&at, &mut wire).unwrap();
    assert_eq!(wire, vec![0x01, 0x07, 0x41, 0x2c]);
    assert_eq!(decode_position_at(&wire, 0), Ok((at, 4)));
}

#[test]
fn position_with_an_unknown_flag_is_invalid_message() {
    assert_eq!(
        decode_position_at(&[0x02, 0x01, 0x01], 0),
        Err(DecodeError::InvalidMessage(2))
    );
    assert_eq!(
        decode_position_at(&[0x01, 0x01], 0),
        Err(DecodeError::MissingField)
    );
    let mut wire = vec![];
    assert_eq!(
        encode_position(
            &Some(Position {
                group: u64::MAX,
                object: 0
            }),
            &mut wire
        ),
        Err(EncodeError::BoundsExceeded)
    );
    assert!(wire.is_empty());
}

#[test]
fn codec_error_codes_are_stable() {
    assert_eq!(DecodeError::MissingField.code(), 1);
    assert_eq!(DecodeError::InvalidString.code(), 2);
    assert_eq!(DecodeError::InvalidSubscribeLocation.code(), 3);
    assert_eq!(DecodeError::InvalidMessage(77).code(), 4);
    assert_eq!(DecodeError::BoundsExceeded.code(), 5);
    assert_eq!(DecodeError::DuplicateParam.code(), 6);
    assert_eq!(EncodeError::MissingField.code(), 1);
    assert_eq!(EncodeError::BoundsExceeded.code(), 5);
}
