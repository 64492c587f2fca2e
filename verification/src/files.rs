use vstd::prelude::*;
use crate::console::same_text;

verus! {

/// Why bytes are not a message of the dummy protocol.
#[derive(Debug, Clone, Copy, PartialEq, Eq, Structural)]
pub enum ProtocolError {
    /// The bytes end inside the magic or the endianness marker.
    UnexpectedEof,
    /// The first 13 bytes are not `DummyProtocol`.
    WrongProtocol,
    /// The marker after the magic is neither `LE` nor `BE`.
    UnknownEndianness,
    /// The payload ends inside a 4-byte value.
    PartialValue,
}

/// The 13 bytes `DummyProtocol` that open every message.
pub open spec fn magic() -> Seq<u8> {
    seq![68u8, 117, 109, 109, 121, 80, 114, 111, 116, 111, 99, 111, 108]
}

/// The marker `LE` for little endian, `BE` for big endian.
pub open spec fn marker(little_endian: bool) -> Seq<u8> {
    if little_endian {
        seq![76u8, 69]
    } else {
        seq![66u8, 69]
    }
}

/// The 4 bytes of `v` in the given byte order.
pub open spec fn value_bytes(little_endian: bool, v: u32) -> Seq<u8> {
    let b0 = (v & 0xff) as u8;
    let b1 = ((v >> 8u32) & 0xff) as u8;
    let b2 = ((v >> 16u32) & 0xff) as u8;
    let b3 = ((v >> 24u32) & 0xff) as u8;
    if little_endian {
        seq![b0, b1, b2, b3]
    } else {
        seq![b3, b2, b1, b0]
    }
}

/// The value of 4 bytes, least significant first.
pub open spec fn le_value(b0: u8, b1: u8, b2: u8, b3: u8) -> u32 {
    (b0 as u32) | ((b1 as u32) << 8u32) | ((b2 as u32) << 16u32) | ((b3 as u32) << 24u32)
}

/// The value of the first 4 bytes of `b` in the given byte order.
pub open spec fn value_of(little_endian: bool, b: Seq<u8>) -> u32 {
    if little_endian {
        le_value(b[0], b[1], b[2], b[3])
    } else {
        le_value(b[3], b[2], b[1], b[0])
    }
}

/// The bytes of `vals`, 4 per value, in the given byte order.
pub open spec fn payload_bytes(little_endian: bool, vals: Seq<u32>) -> Seq<u8>
    decreases vals.len(),
{
    if vals.len() == 0 {
        Seq::empty()
    } else {
        value_bytes(little_endian, vals[0]) + payload_bytes(little_endian, vals.drop_first())
    }
}

/// The values of `b` read 4 bytes at a time; a tail of fewer than 4 bytes
/// is not read.
pub open spec fn payload_values(little_endian: bool, b: Seq<u8>) -> Seq<u32>
    decreases b.len(),
{
    if b.len() < 4 {
        Seq::empty()
    } else {
        seq![value_of(little_endian, b)] + payload_values(little_endian, b.skip(4))
    }
}

/// A whole message: magic, marker, then the payload.
pub open spec fn spec_encode(little_endian: bool, vals: Seq<u32>) -> Seq<u8> {
    magic() + marker(little_endian) + payload_bytes(little_endian, vals)
}

/// What reading a message gives: the magic must come first, then `LE` or
/// `BE`, then a payload of whole 4-byte values.
pub open spec fn spec_parse(bytes: Seq<u8>) -> Result<Seq<u32>, ProtocolError> {
    if bytes.len() < 13 {
        Err(ProtocolError::UnexpectedEof)
    } else if bytes.take(13) != magic() {
        Err(ProtocolError::WrongProtocol)
    } else if bytes.len() < 15 {
        Err(ProtocolError::UnexpectedEof)
    } else if bytes.subrange(13, 15) != marker(true) && bytes.subrange(13, 15) != marker(false) {
        Err(ProtocolError::UnknownEndianness)
    } else if (bytes.len() - 15) % 4 != 0 {
        Err(ProtocolError::PartialValue)
    } else {
        Ok(payload_values(bytes.subrange(13, 15) == marker(true), bytes.skip(15)))
    }
}

/// Reading back the bytes of a value gives the value.
pub proof fn lemma_value_roundtrip(little_endian: bool, v: u32)
    ensures
        value_bytes(little_endian, v).len() == 4,
        value_of(little_endian, value_bytes(little_endian, v)) == v,
{
    assert(le_value(
        (v & 0xff) as u8,
        ((v >> 8u32) & 0xff) as u8,
        ((v >> 16u32) & 0xff) as u8,
        ((v >> 24u32) & 0xff) as u8,
    ) == v) by (bit_vector);
}

/// Reading back the bytes of a payload gives the payload.
pub proof fn lemma_payload_roundtrip(little_endian: bool, vals: Seq<u32>)
    ensures
        payload_bytes(little_endian, vals).len() == 4 * vals.len(),
        payload_values(little_endian, payload_bytes(little_endian, vals)) == vals,
    decreases vals.len(),
{
    if vals.len() > 0 {
        lemma_payload_roundtrip(little_endian, vals.drop_first());
        lemma_value_roundtrip(little_endian, vals[0]);
        let vb = value_bytes(little_endian, vals[0]);
        let rest = payload_bytes(little_endian, vals.drop_first());
        assert((vb + rest).skip(4) =~= rest);
        assert(value_of(little_endian, vb + rest) == value_of(little_endian, vb));
        assert(seq![vals[0]] + vals.drop_first() =~= vals);
    }
}

/// A message written in either byte order reads back as the values written.
pub proof fn lemma_encode_parse_roundtrip(little_endian: bool, vals: Seq<u32>)
    ensures
        spec_parse(spec_encode(little_endian, vals)) == Ok::<Seq<u32>, ProtocolError>(vals),
{
    let bytes = spec_encode(little_endian, vals);
    lemma_payload_roundtrip(little_endian, vals);
    assert(bytes.take(13) =~= magic());
    assert(bytes.subrange(13, 15) =~= marker(little_endian));
    assert(bytes.skip(15) =~= payload_bytes(little_endian, vals));
    assert(marker(true) != marker(false)) by {
        assert(marker(true)[0] != marker(false)[0]);
    }
}

/// Writing back the value of 4 bytes gives those bytes.
pub proof fn lemma_bytes_roundtrip(little_endian: bool, b: Seq<u8>)
    requires
        b.len() >= 4,
    ensures
        value_bytes(little_endian, value_of(little_endian, b)) == b.take(4),
{
    let (b0, b1, b2, b3) = (b[0], b[1], b[2], b[3]);
    assert(((le_value(b0, b1, b2, b3) & 0xff) as u8) == b0
        && (((le_value(b0, b1, b2, b3) >> 8u32) & 0xff) as u8) == b1
        && (((le_value(b0, b1, b2, b3) >> 16u32) & 0xff) as u8) == b2
        && (((le_value(b0, b1, b2, b3) >> 24u32) & 0xff) as u8) == b3) by (bit_vector);
    assert(((le_value(b3, b2, b1, b0) & 0xff) as u8) == b3
        && (((le_value(b3, b2, b1, b0) >> 8u32) & 0xff) as u8) == b2
        && (((le_value(b3, b2, b1, b0) >> 16u32) & 0xff) as u8) == b1
        && (((le_value(b3, b2, b1, b0) >> 24u32) & 0xff) as u8) == b0) by (bit_vector);
    assert(value_bytes(little_endian, value_of(little_endian, b)) =~= b.take(4));
}

/// A payload of whole values holds one value per 4 bytes, and writing them
/// back gives the payload.
pub proof fn lemma_payload_values_exact(little_endian: bool, b: Seq<u8>)
    requires
        b.len() % 4 == 0,
    ensures
        4 * payload_values(little_endian, b).len() == b.len(),
        payload_bytes(little_endian, payload_values(little_endian, b)) == b,
    decreases b.len(),
{
    if b.len() >= 4 {
        lemma_payload_values_exact(little_endian, b.skip(4));
        lemma_bytes_roundtrip(little_endian, b);
        let vals = payload_values(little_endian, b);
        assert(vals.drop_first() =~= payload_values(little_endian, b.skip(4)));
        assert(b.take(4) + b.skip(4) =~= b);
    } else {
        assert(b.len() == 0);
        assert(b =~= Seq::<u8>::empty());
    }
}

/// Reading accepts exactly the messages that writing produces: whatever it
/// reads, written back in the message's byte order, gives the very bytes
/// that were read, so no byte is dropped and no partial value is accepted.
pub proof fn lemma_parse_accepts_only_encodings(bytes: Seq<u8>)
    ensures
        spec_parse(bytes) matches Ok(vals) ==> bytes == spec_encode(bytes.subrange(13, 15) == marker(true), vals),
{
    if spec_parse(bytes) is Ok {
        let le = bytes.subrange(13, 15) == marker(true);
        assert(le ==> bytes.subrange(13, 15) == marker(le));
        assert(!le ==> bytes.subrange(13, 15) == marker(le));
        lemma_payload_values_exact(le, bytes.skip(15));
        assert(bytes =~= magic() + marker(le) + bytes.skip(15)) by {
            assert(bytes.take(13) == magic());
            assert(bytes =~= bytes.take(13) + bytes.subrange(13, 15) + bytes.skip(15));
        }
    }
}

/// A message whose payload does not split into whole 4-byte values is
/// refused as a partial value, whatever the rest of it is.
pub proof fn lemma_partial_payload_refused(bytes: Seq<u8>)
    requires
        bytes.len() >= 15,
        (bytes.len() - 15) % 4 != 0,
    ensures
        spec_parse(bytes) is Err,
        bytes.take(13) == magic() && (bytes.subrange(13, 15) == marker(true) || bytes.subrange(13, 15)
            == marker(false)) ==> spec_parse(bytes) == Err::<Seq<u32>, ProtocolError>(ProtocolError::PartialValue),
{
}

/// The magic as bytes.
fn magic_bytes() -> (r: Vec<u8>)
    ensures
        r@ == magic(),
{
    let r: Vec<u8> = vec![68u8, 117, 109, 109, 121, 80, 114, 111, 116, 111, 99, 111, 108];
    assert(r@ =~= magic());
    r
}

/// The bytes of one value in the given byte order.
fn push_value(out: &mut Vec<u8>, little_endian: bool, v: u32)
    ensures
        final(out)@ == old(out)@ + value_bytes(little_endian, v),
{
    let b0 = (v & 0xff) as u8;
    let b1 = ((v >> 8u32) & 0xff) as u8;
    let b2 = ((v >> 16u32) & 0xff) as u8;
    let b3 = ((v >> 24u32) & 0xff) as u8;
    if little_endian {
        out.push(b0);
        out.push(b1);
        out.push(b2);
        out.push(b3);
    } else {
        out.push(b3);
        out.push(b2);
        out.push(b1);
        out.push(b0);
    }
    assert(final(out)@ =~= old(out)@ + value_bytes(little_endian, v));
}

/// Writes a message: the magic, the byte-order marker, then each value in
/// 4 bytes of that order.
pub fn encode_protocol(little_endian: bool, payload: &[u32]) -> (r: Vec<u8>)
    ensures
        r@ == spec_encode(little_endian, payload@),
{
    let mut out = magic_bytes();
    if little_endian {
        out.push(76u8);
        out.push(69u8);
    } else {
        out.push(66u8);
        out.push(69u8);
    }
    let ghost head = out@;
    assert(head =~= magic() + marker(little_endian));
    let mut i: usize = 0;
    assert(payload@.skip(0) =~= payload@);
    while i < payload.len()
        invariant
            0 <= i <= payload@.len(),
            out@ + payload_bytes(little_endian, payload@.skip(i as int))
                == head + payload_bytes(little_endian, payload@),
        decreases payload@.len() - i,
    {
        let ghost before = out@;
        let ghost rest = payload@.skip(i as int);
        assert(rest.drop_first() =~= payload@.skip(i + 1));
        push_value(&mut out, little_endian, payload[i]);
        assert(before + payload_bytes(little_endian, rest) =~= out@ + payload_bytes(little_endian, payload@.skip(i + 1)));
        i = i + 1;
    }
    assert(payload@.skip(i as int) =~= Seq::<u32>::empty());
    assert(out@ + Seq::<u8>::empty() =~= out@);
    out
}

/// The bytes that the dummy writer puts in its file: a little-endian message
/// holding `0xDEAD` and `0xBEEF`.
pub fn write_dummy_protocol() -> (r: Vec<u8>)
    ensures
        r@ == spec_encode(true, seq![0xDEADu32, 0xBEEFu32]),
{
    let v: Vec<u32> = vec![0xDEADu32, 0xBEEFu32];
    assert(v@ =~= seq![0xDEADu32, 0xBEEFu32]);
    encode_protocol(true, v.as_slice())
}

/// Reads a message: checks the magic and the byte-order marker, then reads
/// the payload 4 bytes at a time in that order.
pub fn read_protocol(bytes: &[u8]) -> (r: Result<Vec<u32>, ProtocolError>)
    ensures
        match r {
            Ok(v) => spec_parse(bytes@) == Ok::<Seq<u32>, ProtocolError>(v@),
            Err(e) => spec_parse(bytes@) == Err::<Seq<u32>, ProtocolError>(e),
        },
        r matches Ok(v) ==> bytes@.len() == 15 + 4 * v@.len(),
        bytes@.len() >= 15 && (bytes@.len() - 15) % 4 != 0 ==> r is Err,
{
    let n = bytes.len();
    if n < 13 {
        return Err(ProtocolError::UnexpectedEof);
    }
    let m = magic_bytes();
    let mut i: usize = 0;
    while i < 13
        invariant
            0 <= i <= 13 <= n,
            n == bytes@.len(),
            m@ == magic(),
            forall|j: int| 0 <= j < i ==> bytes@[j] == magic()[j],
        decreases 13 - i,
    {
        if bytes[i] != m[i] {
            assert(bytes@.take(13)[i as int] != magic()[i as int]);
            return Err(ProtocolError::WrongProtocol);
        }
        i = i + 1;
    }
    assert(bytes@.take(13) =~= magic());
    if n < 15 {
        return Err(ProtocolError::UnexpectedEof);
    }
    let e0 = bytes[13];
    let e1 = bytes[14];
    let little_endian: bool;
    if e0 == 76u8 && e1 == 69u8 {
        little_endian = true;
        assert(bytes@.subrange(13, 15) =~= marker(true));
    } else if e0 == 66u8 && e1 == 69u8 {
        little_endian = false;
        assert(bytes@.subrange(13, 15) =~= marker(false));
        assert(marker(true)[0] != marker(false)[0]);
    } else {
        assert(bytes@.subrange(13, 15)[0] == e0);
        assert(bytes@.subrange(13, 15)[1] == e1);
        return Err(ProtocolError::UnknownEndianness);
    }
    if (n - 15) % 4 != 0 {
        return Err(ProtocolError::PartialValue);
    }
    let ghost body = bytes@.skip(15);
    let mut out: Vec<u32> = Vec::new();
    let mut p: usize = 15;
    assert(bytes@.skip(15) =~= body);
    while p < n
        invariant
            15 <= p <= n,
            n == bytes@.len(),
            (n - p) % 4 == 0,
            body == bytes@.skip(15),
            out@ + payload_values(little_endian, bytes@.skip(p as int)) == payload_values(little_endian, body),
        decreases n - p,
    {
        let b0 = bytes[p];
        let b1 = bytes[p + 1];
        let b2 = bytes[p + 2];
        let b3 = bytes[p + 3];
        let v = if little_endian {
            (b0 as u32) | ((b1 as u32) << 8u32) | ((b2 as u32) << 16u32) | ((b3 as u32) << 24u32)
        } else {
            (b3 as u32) | ((b2 as u32) << 8u32) | ((b1 as u32) << 16u32) | ((b0 as u32) << 24u32)
        };
        let ghost rest = bytes@.skip(p as int);
        proof {
            assert(rest[0] == b0 && rest[1] == b1 && rest[2] == b2 && rest[3] == b3);
            assert(v == value_of(little_endian, rest));
            assert(rest.skip(4) =~= bytes@.skip(p + 4));
        }
        let ghost before = out@;
        out.push(v);
        assert(before + payload_values(little_endian, rest) =~= out@ + payload_values(little_endian, bytes@.skip(p + 4)));
        p = p + 4;
    }
    assert(payload_values(little_endian, bytes@.skip(n as int)) == Seq::<u32>::empty());
    assert(out@ + Seq::<u32>::empty() =~= out@);
    proof {
        lemma_payload_values_exact(little_endian, body);
    }
    Ok(out)
}

/// The entry name is hidden: it is known and starts with a dot.
pub fn is_hidden(file_name: Option<&str>) -> (r: bool)
    ensures
        r == match file_name {
            Some(s) => s@.len() > 0 && s@[0] == '.',
            None => false,
        },
{
    match file_name {
        Some(s) => {
            if s.unicode_len() == 0 {
                false
            } else {
                s.get_char(0) == '.'
            }
        },
        None => false,
    }
}

/// The entry name is known and equals `name`.
pub fn has_file_name(file_name: Option<&str>, name: &str) -> (r: bool)
    ensures
        r == match file_name {
            Some(s) => s@ == name@,
            None => false,
        },
{
    match file_name {
        Some(s) => same_text(s, name),
        None => false,
    }
}

} // verus!
