use borsh::BorshDeserialize;
use vstd::prelude::*;

verus! {

/// The error type of the serialisation crate's readers and writers.
#[verifier::external_type_specification]
#[verifier::external_body]
pub struct ExIoError(std::io::Error);

/// The number that eight bytes spell in little-endian order: the first byte
/// counts ones, each further byte 256 times what the byte before it counts.
pub open spec fn le_value(bytes: Seq<u8>) -> int
    recommends
        bytes.len() == 8,
{
    bytes[0] + 0x100 * bytes[1] + 0x1_0000 * bytes[2] + 0x100_0000 * bytes[3] + 0x1_0000_0000
        * bytes[4] + 0x100_0000_0000 * bytes[5] + 0x1_0000_0000_0000 * bytes[6]
        + 0x100_0000_0000_0000 * bytes[7]
}

/// The eight bytes that spell `value` in little-endian order.
pub open spec fn le_bytes(value: u64) -> Seq<u8> {
    let q1 = value / 0x100;
    let q2 = q1 / 0x100;
    let q3 = q2 / 0x100;
    let q4 = q3 / 0x100;
    let q5 = q4 / 0x100;
    let q6 = q5 / 0x100;
    let q7 = q6 / 0x100;
    seq![
        (value % 0x100) as u8,
        (q1 % 0x100) as u8,
        (q2 % 0x100) as u8,
        (q3 % 0x100) as u8,
        (q4 % 0x100) as u8,
        (q5 % 0x100) as u8,
        (q6 % 0x100) as u8,
        (q7 % 0x100) as u8,
    ]
}

/// The bytes of a number spell that number.
pub proof fn le_value_of_bytes(value: u64)
    ensures
        le_bytes(value).len() == 8,
        le_value(le_bytes(value)) == value,
{
}

/// A number made of a low byte and a rest gives them back on division by
/// 256.
proof fn split_low_byte(low: int, rest: int)
    requires
        0 <= low < 0x100,
    ensures
        (low + 0x100 * rest) % 0x100 == low,
        (low + 0x100 * rest) / 0x100 == rest,
{
}

/// Eight bytes are the bytes of the number they spell, which fits in 64
/// bits.
pub proof fn le_bytes_of_value(bytes: Seq<u8>)
    requires
        bytes.len() == 8,
    ensures
        0 <= le_value(bytes) <= u64::MAX,
        le_bytes(le_value(bytes) as u64) == bytes,
{
    let t7: int = bytes[7] as int;
    let t6: int = bytes[6] + 0x100 * t7;
    let t5: int = bytes[5] + 0x100 * t6;
    let t4: int = bytes[4] + 0x100 * t5;
    let t3: int = bytes[3] + 0x100 * t4;
    let t2: int = bytes[2] + 0x100 * t3;
    let t1: int = bytes[1] + 0x100 * t2;
    let t0: int = bytes[0] + 0x100 * t1;
    assert(t0 == le_value(bytes));
    split_low_byte(bytes[0] as int, t1);
    split_low_byte(bytes[1] as int, t2);
    split_low_byte(bytes[2] as int, t3);
    split_low_byte(bytes[3] as int, t4);
    split_low_byte(bytes[4] as int, t5);
    split_low_byte(bytes[5] as int, t6);
    split_low_byte(bytes[6] as int, t7);
    let value = t0 as u64;
    assert(value == t0);
    assert(value / 0x100 == t1);
    assert(value / 0x100 / 0x100 == t2);
    assert(value / 0x100 / 0x100 / 0x100 == t3);
    assert(value / 0x100 / 0x100 / 0x100 / 0x100 == t4);
    assert(value / 0x100 / 0x100 / 0x100 / 0x100 / 0x100 == t5);
    assert(value / 0x100 / 0x100 / 0x100 / 0x100 / 0x100 / 0x100 == t6);
    assert(value / 0x100 / 0x100 / 0x100 / 0x100 / 0x100 / 0x100 / 0x100 == t7);
    assert(le_bytes(value) =~= bytes);
}

/// `BorshDeserialize::try_from_slice` at `u64`. Trusted: it succeeds exactly
/// on eight bytes, an integer being read as its fixed-width little-endian
/// bytes and any byte left over being an error, and the value it gives is the
/// one those eight bytes spell.
#[verifier::external_body]
pub(crate) fn read_amount(bytes: &[u8]) -> (r: Result<u64, std::io::Error>)
    ensures
        r is Ok <==> bytes@.len() == 8,
        r matches Ok(v) ==> v == le_value(bytes@),
{
    u64::try_from_slice(bytes)
}

/// `borsh::to_vec` at `u64`. Trusted: the writer is a fresh vector, which
/// grows as it is written to, so the call succeeds, and what it gives are the
/// eight little-endian bytes of `value`.
#[verifier::external_body]
pub(crate) fn write_amount(value: u64) -> (r: Result<Vec<u8>, std::io::Error>)
    ensures
        r is Ok,
        r matches Ok(b) ==> b@ == le_bytes(value),
{
    borsh::to_vec(&value)
}

/// Appends the eight little-endian bytes of `amount` to `out`.
pub(crate) fn push_amount(out: &mut Vec<u8>, amount: u64)
    ensures
        final(out)@ == old(out)@ + le_bytes(amount),
{
    match write_amount(amount) {
        Ok(mut bytes) => {
            out.append(&mut bytes);
        },
        Err(_) => {},
    }
}

} // verus!
