use moq::coding::varint::decode_varint;
use moq::coding::varint::encode_varint;
use moq::coding::varint::varint_size;
use moq::coding::varint::VARINT_MAX;
use moq::error::DecodeError;
use moq::error::EncodeError;

fn encoded(v: u64) -> Vec<u8> {
    let mut out = Vec::new();
    encode_varint(v, &mut out).unwrap();
    out
}

#[test]
fn varint_lengths_at_the_boundaries() {
    let cases: [(u64, usize); 7] = [
        (0, 1),
        (63, 1),
        (64, 2),
        (16383, 2),
        (16384, 4),
        ((1 << 30) - 1, 4),
        (1 << 30, 8),
    ];
    for (value, len) in cases {
        let bytes = encoded(value);
        assert_eq!(bytes.len(), len);
        assert_eq!(varint_size(value), len);
        assert_eq!(decode_varint(&bytes), Ok((value, len)));
    }
}

#[test]
fn varint_exact_bytes() {
    assert_eq!(encoded(0), vec![0x00]);
    assert_eq!(encoded(37), vec![0x25]);
    assert_eq!(encoded(15293), vec![0x7b, 0xbd]);
    assert_eq!(encoded(494878333), vec![0x9d, 0x7f, 0x3e, 0x7d]);
    assert_eq!(
        encoded(151288809941952652),
        vec![0xc2, 0x19, 0x7c, 0x5e, 0xff, 0x14, 0xe8, 0x8c]
    );
    assert_eq!(encoded(VARINT_MAX), vec![0xff; 8]);
}

#[test]
fn varint_above_the_maximum_is_refused() {
    let mut out = vec![1, 2, 3];
    assert_eq!(
        encode_varint(VARINT_MAX + 1, &mut out),
        Err(EncodeError::BoundsExceeded)
    );
    assert_eq!(out, vec![1, 2, 3]);
    assert_eq!(
        encode_varint(u64::MAX, &mut out),
        Err(EncodeError::BoundsExceeded)
    );
}

#[test]
fn varint_truncated_input_is_missing_field() {
    assert_eq!(decode_varint(&[]), Err(DecodeError::MissingField));
    assert_eq!(decode_varint(&[0x40]), Err(DecodeError::MissingField));
    assert_eq!(decode_varint(&[0x80, 1, 2]), Err(DecodeError::MissingField));
    assert_eq!(
        decode_varint(&[0xc0, 1, 2, 3, 4, 5, 6]),
        Err(DecodeError::MissingField)
    );
}

#[test]
fn varint_accepts_longer_forms_and_leaves_the_rest() {
    assert_eq!(decode_varint(&[0x40, 0x25, 0xaa]), Ok((37, 2)));
    assert_eq!(decode_varint(&[0x25, 0xaa]), Ok((37, 1)));
}

#[test]
fn varint_round_trip_across_the_range() {
    let mut v: u64 = 0;
    let mut step: u64 = 1;
    while v <= VARINT_MAX {
        let bytes = encoded(v);
        assert_eq!(decode_varint(&bytes), Ok((v, bytes.len())));
        step = step.wrapping_mul(3).wrapping_add(1) % 0xffff_ffff_ffff;
        v = match v.checked_add(step) {
            Some(n) => n,
            None => break,
        };
    }
    for shift in 0..62 {
        let v = 1u64 << shift;
        for w in [v - 1, v, v + 1] {
            if w <= VARINT_MAX {
                let bytes = encoded(w);
                assert_eq!(decode_varint(&bytes), Ok((w, bytes.len())));
            }
        }
    }
}
