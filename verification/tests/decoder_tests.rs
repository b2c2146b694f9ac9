use token_factory::decode::{encode_string_field, parse_protobuf_length_prefixed,
    parse_protobuf_string};
use token_factory::error::DecodeError;
use token_factory::msg::CreateDenomReponse;

#[test]
fn decode_round_trip_denom() {
    let encoded = encode_string_field(1, "factory/abc/xyz");
    assert_eq!(encoded[0], 0x0A);
    assert_eq!(encoded[1], 15);
    assert_eq!(encoded.len(), 17);
    let decoded = parse_protobuf_string(&encoded, 1).unwrap();
    assert_eq!(decoded, "factory/abc/xyz");
}

#[test]
fn decode_empty_buffer_is_empty_string() {
    let decoded = parse_protobuf_string(&[], 1).unwrap();
    assert_eq!(decoded, "");
}

#[test]
fn decode_payload_too_short() {
    let mut data = vec![0x0Au8, 50];
    for _ in 0..10 {
        data.push(0x61);
    }
    assert_eq!(parse_protobuf_string(&data, 1), Err(DecodeError::PayloadTooShort));
}

#[test]
fn decode_field_mismatch() {
    // Tag byte for field 2, wire type 2.
    let data = [0x12u8, 0x01, 0x61];
    assert_eq!(parse_protobuf_string(&data, 1), Err(DecodeError::FieldMismatch));
}

#[test]
fn decode_wire_type_mismatch() {
    // Tag byte for field 1, wire type 0 (varint).
    let data = [0x08u8, 0x01];
    assert_eq!(parse_protobuf_string(&data, 1), Err(DecodeError::WireTypeMismatch));
}

#[test]
fn decode_varint_too_short() {
    // The length varint never terminates before the buffer ends.
    let data = [0x0Au8, 0x80, 0x80];
    assert_eq!(parse_protobuf_string(&data, 1), Err(DecodeError::VarintTooShort));
}

#[test]
fn decode_varint_too_long() {
    // Nine continuation bytes and no terminator within them.
    let data = [0x0Au8, 0x80, 0x81, 0x82, 0x83, 0x84, 0x85, 0x86, 0x87, 0x88, 0x01];
    assert_eq!(parse_protobuf_string(&data, 1), Err(DecodeError::VarintTooLong));
}

#[test]
fn decode_invalid_utf8() {
    let data = [0x0Au8, 0x01, 0xFF];
    assert_eq!(parse_protobuf_string(&data, 1), Err(DecodeError::InvalidUtf8));
    // The raw payload itself is still extracted.
    assert_eq!(parse_protobuf_length_prefixed(&data, 1), Ok(vec![0xFFu8]));
}

#[test]
fn decode_multibyte_length() {
    // A 300-byte payload needs a two-byte varint length.
    let payload: String = std::iter::repeat('a').take(300).collect();
    let encoded = encode_string_field(1, &payload);
    assert_eq!(encoded[0], 0x0A);
    assert_eq!(encoded[1], 0xAC);
    assert_eq!(encoded[2], 0x02);
    assert_eq!(parse_protobuf_string(&encoded, 1).unwrap(), payload);
}

#[test]
fn reply_data_round_trip() {
    let encoded = encode_string_field(1, "factory/govner/fundz");
    let reply = CreateDenomReponse::from_reply_data(&encoded).unwrap();
    assert_eq!(reply.new_token_denom, "factory/govner/fundz");
}
