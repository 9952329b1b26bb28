use danmaku::codec::{decode, encode, CodecError};

#[test]
fn encode_known_value() {
    assert_eq!(encode(11451419180).unwrap(), "BV1gA4v1m7BV");
}

#[test]
fn decode_known_value() {
    assert_eq!(decode("BV1B8Ziyo7s2").unwrap(), 1145141919810);
}

#[test]
fn encode_matches_reference_codec() {
    for v in [1u64, 2, 170001, 882584971, 11451419180, 1145141919810, (1u64 << 51) - 1] {
        assert_eq!(encode(v).unwrap(), abv::av2bv(v).unwrap());
    }
}

#[test]
fn decode_matches_reference_codec() {
    for v in [1u64, 99, 170001, 11451419180] {
        let id = encode(v).unwrap();
        assert_eq!(decode(&id).unwrap(), abv::bv2av(id.clone()).unwrap());
    }
}

#[test]
fn round_trip_samples() {
    let mut v: u64 = 0;
    while v < 2000 {
        let id = encode(v).unwrap();
        assert_eq!(id.len(), 12);
        assert_eq!(decode(&id).unwrap(), v);
        v += 1;
    }
    for v in [170001u64, 1 << 20, 1 << 40, (1 << 51) - 1, 1234567890123] {
        let id = encode(v).unwrap();
        assert!(danmaku::classify::is_av_or_bv(&id));
        assert_eq!(decode(&id).unwrap(), v);
    }
}

#[test]
fn encode_rejects_out_of_range() {
    assert_eq!(encode(1 << 51), Err(CodecError::OutOfRange));
    assert_eq!(encode((1 << 51) + 1), Err(CodecError::OutOfRange));
    assert_eq!(encode(u64::MAX), Err(CodecError::OutOfRange));
}

#[test]
fn encode_accepts_full_domain_edges() {
    assert!(encode(0).is_ok());
    assert!(encode((1 << 51) - 1).is_ok());
}

#[test]
fn decode_rejects_malformed() {
    assert_eq!(decode(""), Err(CodecError::MalformedId));
    assert_eq!(decode("BV212312"), Err(CodecError::MalformedId));
    assert_eq!(decode("BV2B8Ziyo7s2"), Err(CodecError::MalformedId));
    assert_eq!(decode("BV1B0Ziyo7s2"), Err(CodecError::MalformedId));
    assert_eq!(decode("AV1B8Ziyo7s2"), Err(CodecError::MalformedId));
    assert_eq!(decode("BV1B8Ziyo7s22"), Err(CodecError::MalformedId));
}

#[test]
fn decode_prefix_is_case_insensitive() {
    assert_eq!(decode("bv1B8Ziyo7s2").unwrap(), 1145141919810);
    assert_eq!(decode("Bv1B8Ziyo7s2").unwrap(), 1145141919810);
    assert_eq!(decode("bV1B8Ziyo7s2").unwrap(), 1145141919810);
}

#[test]
fn decode_rejects_out_of_range_payload() {
    // all digits zero: the accumulated value has no bit 51
    assert_eq!(decode("BV1FFFFFFFFF"), Err(CodecError::OutOfRange));
    // all digits maximal: the accumulated value exceeds 52 bits
    assert_eq!(decode("BV1fffffffff"), Err(CodecError::OutOfRange));
}
