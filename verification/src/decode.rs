//! Length-delimited reply codec.
//!
//! A creation reply is a byte buffer holding one record: a tag byte (field
//! number in the high five bits, wire type in the low two), a base-128 varint
//! length, and exactly that many payload bytes, interpreted as UTF-8 text.
//! The decoder extracts the payload of the field with a requested field
//! number; the encoder produces a buffer the decoder maps back to its input.

use vstd::prelude::*;
use vstd::slice::{slice_subrange, slice_to_vec};
use vstd::string::StringSliceAdditionalSpecFns;
use vstd::utf8::{decode_utf8, encode_utf8, encode_utf8_decode_utf8, encode_utf8_valid_utf8,
    valid_utf8};

use crate::error::DecodeError;

verus! {

/// Wire type of a length-delimited field.
pub const WIRE_TYPE_LENGTH_DELIMITED: u8 = 2;

/// A varint with no terminating byte among its first nine is rejected.
pub const VARINT_MAX_BYTES: usize = 9;

/// Value and byte width of the base-128 varint at the front of `b`, scanning
/// at most `fuel` bytes. Each byte contributes its low seven bits, least
/// significant first; a clear high bit terminates the scan.
pub open spec fn spec_varint(b: Seq<u8>, fuel: int) -> Result<(int, int), DecodeError>
    decreases fuel,
{
    if fuel <= 0 {
        Err(DecodeError::VarintTooLong)
    } else if b.len() == 0 {
        Err(DecodeError::VarintTooShort)
    } else if b[0] < 0x80 {
        Ok((b[0] as int, 1int))
    } else {
        match spec_varint(b.drop_first(), fuel - 1) {
            Ok(p) => Ok(((b[0] & 0x7f) + 128 * p.0, 1 + p.1)),
            Err(e) => Err(e),
        }
    }
}

/// 128 raised to the `n`-th power; bounds the value of an `n`-byte varint.
spec fn pow128(n: int) -> int
    decreases n,
{
    if n <= 0 {
        1
    } else {
        128 * pow128(n - 1)
    }
}

proof fn lemma_pow128_pos(n: int)
    ensures
        pow128(n) >= 1,
    decreases n,
{
    if n > 0 {
        lemma_pow128_pos(n - 1);
    }
}

proof fn lemma_varint_bounds(b: Seq<u8>, fuel: int)
    requires
        spec_varint(b, fuel) is Ok,
    ensures
        (spec_varint(b, fuel) matches Ok(p) ==> {
            &&& 0 <= p.0 < pow128(fuel)
            &&& 1 <= p.1 <= fuel
            &&& p.1 <= b.len()
        }),
    decreases fuel,
{
    lemma_pow128_pos(fuel - 1);
    if fuel > 0 && b.len() > 0 && b[0] >= 0x80 {
        if spec_varint(b.drop_first(), fuel - 1) is Ok {
            lemma_varint_bounds(b.drop_first(), fuel - 1);
            let b0 = b[0];
            assert(b0 & 0x7f <= 127) by (bit_vector);
            let p1 = spec_varint(b.drop_first(), fuel - 1)->Ok_0;
            assert((b0 & 0x7f) + 128 * p1.0 < 128 * pow128(fuel - 1));
        }
    }
}

proof fn lemma_pow128_mono(a: int, b: int)
    requires
        a <= b,
    ensures
        pow128(a) <= pow128(b),
    decreases b,
{
    lemma_pow128_pos(b - 1);
    if a < b && b > 0 {
        lemma_pow128_mono(a, b - 1);
    }
}

/// Parses the varint that starts at `start`, scanning at most `fuel` bytes.
fn parse_varint_at(data: &[u8], start: usize, fuel: u8) -> (r: Result<(u64, usize), DecodeError>)
    requires
        start <= data@.len(),
        fuel <= 9,
    ensures
        (match r {
            Ok(p) => {
                &&& spec_varint(data@.skip(start as int), fuel as int) == Ok::<_, DecodeError>((p.0 as int, p.1 as int))
                &&& 1 <= p.1 <= fuel
                &&& start + p.1 <= data@.len()
            },
            Err(e) => spec_varint(data@.skip(start as int), fuel as int) == Err::<(int, int), DecodeError>(e),
        }),
    decreases fuel,
{
    if fuel == 0 {
        Err(DecodeError::VarintTooLong)
    } else if start == data.len() {
        Err(DecodeError::VarintTooShort)
    } else {
        let b0 = data[start];
        proof {
            assert(data@.skip(start as int)[0] == data@[start as int]);
        }
        if b0 < 0x80 {
            Ok((b0 as u64, 1))
        } else {
            proof {
                assert(data@.skip(start as int).drop_first() =~= data@.skip(start as int + 1));
            }
            match parse_varint_at(data, start + 1, fuel - 1) {
                Ok((v, n)) => {
                    proof {
                        lemma_varint_bounds(data@.skip(start as int + 1), fuel as int - 1);
                        lemma_pow128_mono(fuel as int - 1, 8);
                        assert(pow128(8) == 0x100000000000000) by {
                            reveal_with_fuel(pow128, 9);
                        }
                    }
                    let value = (b0 & 0x7f) as u64 + 128 * v;
                    Ok((value, n + 1))
                },
                Err(e) => Err(e),
            }
        }
    }
}

/// Result of decoding the field with number `field_number` from `b`: the raw
/// payload bytes, or the error. An empty buffer decodes to an empty payload.
pub open spec fn spec_decode_field(b: Seq<u8>, field_number: u8) -> Result<Seq<u8>, DecodeError> {
    if b.len() == 0 {
        Ok(Seq::empty())
    } else if b[0] >> 3 != field_number {
        Err(DecodeError::FieldMismatch)
    } else if b[0] & 3 != 2 {
        Err(DecodeError::WireTypeMismatch)
    } else {
        match spec_varint(b.skip(1), VARINT_MAX_BYTES as int) {
            Ok(p) => {
                if b.len() - 1 - p.1 < p.0 {
                    Err(DecodeError::PayloadTooShort)
                } else {
                    Ok(b.subrange(1 + p.1, 1 + p.1 + p.0))
                }
            },
            Err(e) => Err(e),
        }
    }
}

/// Result of decoding the field and reading its payload as UTF-8 text.
pub open spec fn spec_decode_string_field(b: Seq<u8>, field_number: u8) -> Result<
    Seq<char>,
    DecodeError,
> {
    match spec_decode_field(b, field_number) {
        Ok(payload) => {
            if valid_utf8(payload) {
                Ok(decode_utf8(payload))
            } else {
                Err(DecodeError::InvalidUtf8)
            }
        },
        Err(e) => Err(e),
    }
}

/// Decodes the length-delimited field with number `field_number` from `data`
/// and returns its raw payload bytes.
///
/// The payload length claimed by the varint is checked against the bytes
/// actually remaining before anything is copied, so a corrupt length prefix
/// cannot cause an allocation larger than the input buffer.
pub fn parse_protobuf_length_prefixed(data: &[u8], field_number: u8) -> (r: Result<
    Vec<u8>,
    DecodeError,
>)
    ensures
        (match r {
            Ok(payload) => spec_decode_field(data@, field_number) == Ok::<_, DecodeError>(payload@),
            Err(e) => spec_decode_field(data@, field_number) == Err::<Seq<u8>, DecodeError>(e),
        }),
{
    if data.len() == 0 {
        let empty: Vec<u8> = Vec::new();
        proof {
            assert(empty@ =~= Seq::<u8>::empty());
        }
        return Ok(empty);
    }
    let tag = data[0];
    if tag >> 3 != field_number {
        return Err(DecodeError::FieldMismatch);
    }
    if tag & 3 != WIRE_TYPE_LENGTH_DELIMITED {
        return Err(DecodeError::WireTypeMismatch);
    }
    match parse_varint_at(data, 1, 9) {
        Ok((len, n)) => {
            let remaining = data.len() - 1 - n;
            if (remaining as u64) < len {
                Err(DecodeError::PayloadTooShort)
            } else {
                let start = 1 + n;
                let end = start + len as usize;
                Ok(slice_to_vec(slice_subrange(data, start, end)))
            }
        },
        Err(e) => Err(e),
    }
}

/// Relies on `String::from_utf8`: it succeeds exactly on valid UTF-8 input,
/// and the returned string holds the characters those bytes encode.
#[verifier::external_body]
fn string_from_utf8(bytes: Vec<u8>) -> (r: Option<String>)
    ensures
        r is Some <==> valid_utf8(bytes@),
        (r matches Some(s) ==> s@ == decode_utf8(bytes@)),
{
    String::from_utf8(bytes).ok()
}

/// Decodes the length-delimited field with number `field_number` from `data`
/// and reads its payload as UTF-8 text. An empty buffer decodes to `Ok("")`.
pub fn parse_protobuf_string(data: &[u8], field_number: u8) -> (r: Result<String, DecodeError>)
    ensures
        (match r {
            Ok(s) => spec_decode_string_field(data@, field_number) == Ok::<_, DecodeError>(s@),
            Err(e) => spec_decode_string_field(data@, field_number) == Err::<Seq<char>, DecodeError>(e),
        }),
{
    match parse_protobuf_length_prefixed(data, field_number) {
        Ok(payload) => match string_from_utf8(payload) {
            Some(s) => Ok(s),
            None => Err(DecodeError::InvalidUtf8),
        },
        Err(e) => Err(e),
    }
}

/// The base-128 encoding of `v`: low seven bits first, high bit set on every
/// byte but the last.
pub open spec fn spec_encode_varint(v: nat) -> Seq<u8>
    decreases v,
{
    if v < 128 {
        seq![v as u8]
    } else {
        seq![((v % 128) + 128) as u8] + spec_encode_varint(v / 128)
    }
}

/// The tag byte of a length-delimited field with number `f`.
pub open spec fn spec_tag_byte(f: u8) -> u8 {
    (f << 3) | 2
}

/// The encoding of one length-delimited field: tag byte, varint length,
/// payload bytes.
pub open spec fn spec_encode_string_field(field_number: u8, payload: Seq<u8>) -> Seq<u8> {
    seq![spec_tag_byte(field_number)] + spec_encode_varint(payload.len()) + payload
}

proof fn lemma_encode_varint_len(v: nat, k: int)
    requires
        k >= 1,
        v < pow128(k),
    ensures
        1 <= spec_encode_varint(v).len() <= k,
    decreases v,
{
    if v >= 128 {
        lemma_pow128_pos(k - 1);
        assert(v / 128 < pow128(k - 1));
        lemma_encode_varint_len(v / 128, k - 1);
    }
}

proof fn lemma_varint_round_trip(v: nat, rest: Seq<u8>, fuel: int)
    requires
        spec_encode_varint(v).len() <= fuel,
    ensures
        spec_varint(spec_encode_varint(v) + rest, fuel) == Ok::<_, DecodeError>((
            v as int,
            spec_encode_varint(v).len() as int,
        )),
    decreases v,
{
    let enc = spec_encode_varint(v);
    let b = enc + rest;
    if v < 128 {
        assert(b[0] == v as u8);
    } else {
        let b0 = ((v % 128) + 128) as u8;
        assert(b[0] == b0);
        let lo = (v % 128) as u8;
        assert(lo < 128 && b0 == (lo + 128) as u8);
        assert(lo < 128 ==> ((lo + 128) as u8) >= 0x80 && (((lo + 128) as u8) & 0x7f) == lo)
            by (bit_vector);
        lemma_varint_round_trip(v / 128, rest, fuel - 1);
        assert(b.drop_first() =~= spec_encode_varint(v / 128) + rest);
        assert((b[0] & 0x7f) + 128 * ((v / 128) as int) == v as int);
    }
}

/// Law: a field assembled by the encoder decodes, under the same field
/// number, to exactly the payload it was built from.
pub proof fn lemma_field_round_trip(field_number: u8, payload: Seq<u8>)
    requires
        field_number < 32,
        payload.len() < 0x8000000000000000,
    ensures
        spec_decode_field(spec_encode_string_field(field_number, payload), field_number)
            == Ok::<_, DecodeError>(payload),
{
    let enc_len = spec_encode_varint(payload.len());
    let b = spec_encode_string_field(field_number, payload);
    let tag = spec_tag_byte(field_number);
    assert(b[0] == tag);
    assert(field_number < 32 ==> (((field_number << 3) | 2) >> 3) == field_number)
        by (bit_vector);
    assert(field_number < 32 ==> (((field_number << 3) | 2) & 3) == 2) by (bit_vector);
    assert(pow128(9) == 0x8000000000000000) by {
        reveal_with_fuel(pow128, 10);
    }
    lemma_encode_varint_len(payload.len(), 9);
    lemma_varint_round_trip(payload.len(), payload, 9);
    assert(b.skip(1) =~= enc_len + payload);
    let n = enc_len.len() as int;
    assert(spec_varint(b.skip(1), 9) == Ok::<_, DecodeError>((payload.len() as int, n)));
    assert(b.len() - 1 - n == payload.len());
    assert(b.subrange(1 + n, 1 + n + payload.len()) =~= payload);
}

/// Law: encoding a string field and decoding it under the same field number
/// returns exactly the original character sequence.
pub proof fn lemma_string_field_round_trip(field_number: u8, s: Seq<char>)
    requires
        field_number < 32,
        encode_utf8(s).len() < 0x8000000000000000,
    ensures
        spec_decode_string_field(
            spec_encode_string_field(field_number, encode_utf8(s)),
            field_number,
        ) == Ok::<_, DecodeError>(s),
{
    lemma_field_round_trip(field_number, encode_utf8(s));
    encode_utf8_valid_utf8(s);
    encode_utf8_decode_utf8(s);
}

/// Law: an empty reply buffer decodes, under any field number, to the empty
/// string rather than an error.
pub proof fn lemma_decode_empty(field_number: u8)
    ensures
        spec_decode_string_field(Seq::empty(), field_number) == Ok::<_, DecodeError>(
            Seq::<char>::empty(),
        ),
{
    assert(decode_utf8(Seq::<u8>::empty()) =~= Seq::<char>::empty());
}

/// Appends the base-128 encoding of `v` to `out`.
fn encode_varint_into(out: &mut Vec<u8>, v: u64)
    ensures
        final(out)@ == old(out)@ + spec_encode_varint(v as nat),
    decreases v,
{
    if v < 128 {
        out.push(v as u8);
        assert(out@ =~= old(out)@ + spec_encode_varint(v as nat));
    } else {
        let ghost prefix = out@;
        out.push((v % 128 + 128) as u8);
        encode_varint_into(out, v / 128);
        assert(out@ =~= prefix + spec_encode_varint(v as nat));
    }
}

/// Encodes one length-delimited field holding the bytes of `payload` under
/// the given field number.
pub fn encode_string_field(field_number: u8, payload: &str) -> (r: Vec<u8>)
    requires
        field_number < 32,
    ensures
        r@ == spec_encode_string_field(field_number, payload.spec_bytes()),
{
    let mut out: Vec<u8> = Vec::new();
    out.push((field_number << 3) | WIRE_TYPE_LENGTH_DELIMITED);
    let bytes = payload.as_bytes();
    encode_varint_into(&mut out, bytes.len() as u64);
    let mut i: usize = 0;
    while i < bytes.len()
        invariant
            i <= bytes@.len(),
            out@ == seq![spec_tag_byte(field_number)] + spec_encode_varint(bytes@.len())
                + bytes@.subrange(0, i as int),
        decreases bytes@.len() - i,
    {
        out.push(bytes[i]);
        proof {
            assert(bytes@.subrange(0, i + 1) =~= bytes@.subrange(0, i as int) + seq![bytes@[i as int]]);
            assert(out@ =~= seq![spec_tag_byte(field_number)] + spec_encode_varint(bytes@.len())
                + bytes@.subrange(0, i + 1));
        }
        i = i + 1;
    }
    proof {
        assert(bytes@.subrange(0, bytes@.len() as int) =~= bytes@);
    }
    out
}

} // verus!
