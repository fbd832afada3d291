//! Binary tick parsing: fixed 20-byte big-endian records.
//!
//! An hour file decompresses to a concatenation of 20-byte records, each
//! holding five big-endian 32-bit fields: millisecond offset, ask price,
//! bid price, ask volume, bid volume. The parser rejects a buffer whose
//! length is not a multiple of the record size, and packing the parsed
//! records recovers the buffer byte for byte.

use vstd::prelude::*;

use crate::tick::RawTick;
use crate::tick::RAW_TICK_SIZE;

verus! {

/// Errors of the binary tick parser.
#[derive(Clone, Copy, PartialEq, Eq, Structural, Debug)]
pub enum ParseError {
    /// The buffer length is not a multiple of the record size. Holds the
    /// length and the record size.
    InvalidLength(usize, usize),
    /// A record was cut short at the given offset.
    IncompleteRecord(usize),
}

/// The big-endian 32-bit value of four bytes.
pub open spec fn be_u32_of(b0: u8, b1: u8, b2: u8, b3: u8) -> int {
    b0 * 0x100_0000 + b1 * 0x1_0000 + b2 * 0x100 + b3
}

/// The record denoted by 20 bytes starting at offset `i` of `data`.
pub open spec fn raw_tick_at(data: Seq<u8>, i: int) -> RawTick {
    RawTick {
        ms_offset: be_u32_of(data[i], data[i + 1], data[i + 2], data[i + 3]) as u32,
        ask_raw: be_u32_of(data[i + 4], data[i + 5], data[i + 6], data[i + 7]) as u32,
        bid_raw: be_u32_of(data[i + 8], data[i + 9], data[i + 10], data[i + 11]) as u32,
        ask_volume_bits: be_u32_of(
            data[i + 12],
            data[i + 13],
            data[i + 14],
            data[i + 15],
        ) as u32,
        bid_volume_bits: be_u32_of(
            data[i + 16],
            data[i + 17],
            data[i + 18],
            data[i + 19],
        ) as u32,
    }
}

/// All records of a buffer whose length is a multiple of the record size.
pub open spec fn ticks_of(data: Seq<u8>) -> Seq<RawTick> {
    Seq::new((data.len() / 20) as nat, |k: int| raw_tick_at(data, 20 * k))
}

/// The four big-endian bytes of a 32-bit value.
pub open spec fn be_bytes_of(x: int) -> Seq<u8> {
    seq![
        (x / 0x100_0000 % 0x100) as u8,
        (x / 0x1_0000 % 0x100) as u8,
        (x / 0x100 % 0x100) as u8,
        (x % 0x100) as u8,
    ]
}

/// The 20 wire bytes of a record.
pub open spec fn raw_tick_bytes(t: RawTick) -> Seq<u8> {
    be_bytes_of(t.ms_offset as int) + be_bytes_of(t.ask_raw as int) + be_bytes_of(
        t.bid_raw as int,
    ) + be_bytes_of(t.ask_volume_bits as int) + be_bytes_of(t.bid_volume_bits as int)
}

/// The concatenated wire bytes of a sequence of records.
pub open spec fn bytes_of_ticks(ts: Seq<RawTick>) -> Seq<u8>
    decreases ts.len(),
{
    if ts.len() == 0 {
        Seq::empty()
    } else {
        raw_tick_bytes(ts[0]) + bytes_of_ticks(ts.skip(1))
    }
}

/// Packing the four big-endian bytes of a 32-bit value recovers the value.
pub proof fn lemma_be_u32_round_trip(b0: u8, b1: u8, b2: u8, b3: u8)
    ensures
        0 <= be_u32_of(b0, b1, b2, b3) <= u32::MAX,
        be_bytes_of(be_u32_of(b0, b1, b2, b3)) == seq![b0, b1, b2, b3],
{
    let x = be_u32_of(b0, b1, b2, b3);
    assert(x / 0x100_0000 % 0x100 == b0) by (nonlinear_arith)
        requires
            x == b0 * 0x100_0000 + b1 * 0x1_0000 + b2 * 0x100 + b3,
            b1 < 0x100 && b2 < 0x100 && b3 < 0x100 && b0 < 0x100,
    ;
    assert(x / 0x1_0000 % 0x100 == b1) by (nonlinear_arith)
        requires
            x == b0 * 0x100_0000 + b1 * 0x1_0000 + b2 * 0x100 + b3,
            b1 < 0x100 && b2 < 0x100 && b3 < 0x100,
    ;
    assert(x / 0x100 % 0x100 == b2) by (nonlinear_arith)
        requires
            x == b0 * 0x100_0000 + b1 * 0x1_0000 + b2 * 0x100 + b3,
            b2 < 0x100 && b3 < 0x100,
    ;
    assert(x % 0x100 == b3) by (nonlinear_arith)
        requires
            x == b0 * 0x100_0000 + b1 * 0x1_0000 + b2 * 0x100 + b3,
            b3 < 0x100,
    ;
    assert(be_bytes_of(x) =~= seq![b0, b1, b2, b3]);
}

/// Packing a parsed record recovers its 20 wire bytes.
pub proof fn lemma_record_round_trip(data: Seq<u8>, i: int)
    requires
        0 <= i,
        i + 20 <= data.len(),
    ensures
        raw_tick_bytes(raw_tick_at(data, i)) == data.subrange(i, i + 20),
{
    lemma_be_u32_round_trip(data[i], data[i + 1], data[i + 2], data[i + 3]);
    lemma_be_u32_round_trip(data[i + 4], data[i + 5], data[i + 6], data[i + 7]);
    lemma_be_u32_round_trip(data[i + 8], data[i + 9], data[i + 10], data[i + 11]);
    lemma_be_u32_round_trip(data[i + 12], data[i + 13], data[i + 14], data[i + 15]);
    lemma_be_u32_round_trip(data[i + 16], data[i + 17], data[i + 18], data[i + 19]);
    assert(raw_tick_bytes(raw_tick_at(data, i)) =~= data.subrange(i, i + 20));
}

/// Parsing a buffer of whole records and repacking the records big-endian
/// recovers the buffer byte for byte.
pub proof fn lemma_parse_pack_round_trip(data: Seq<u8>)
    requires
        data.len() % 20 == 0,
    ensures
        bytes_of_ticks(ticks_of(data)) == data,
    decreases data.len(),
{
    if data.len() == 0 {
        assert(bytes_of_ticks(ticks_of(data)) =~= data);
    } else {
        let rest = data.skip(20);
        assert(rest.len() % 20 == 0);
        lemma_parse_pack_round_trip(rest);
        lemma_record_round_trip(data, 0);
        assert(ticks_of(data).skip(1) =~= ticks_of(rest)) by {
            assert forall|k: int| 0 <= k < ticks_of(rest).len() implies ticks_of(data).skip(1)[k]
                == ticks_of(rest)[k] by {
                assert(raw_tick_at(data, 20 * (k + 1)) == raw_tick_at(rest, 20 * k));
            }
        }
        assert(bytes_of_ticks(ticks_of(data)) =~= data.subrange(0, 20) + rest);
        assert(data.subrange(0, 20) + rest =~= data);
    }
}

/// Reads the big-endian 32-bit value at offset `i`.
pub fn read_be_u32(data: &Vec<u8>, i: usize) -> (r: u32)
    requires
        i + 4 <= data.len(),
    ensures
        r == be_u32_of(data[i as int], data[i + 1], data[i + 2], data[i + 3]),
{
    data[i] as u32 * 0x100_0000 + data[i + 1] as u32 * 0x1_0000 + data[i + 2] as u32 * 0x100
        + data[i + 3] as u32
}

/// Appends the four big-endian bytes of `x`.
pub fn write_be_u32(out: &mut Vec<u8>, x: u32)
    ensures
        final(out)@ == old(out)@ + be_bytes_of(x as int),
{
    out.push((x / 0x100_0000 % 0x100) as u8);
    out.push((x / 0x1_0000 % 0x100) as u8);
    out.push((x / 0x100 % 0x100) as u8);
    out.push((x % 0x100) as u8);
    assert(out@ =~= old(out)@ + be_bytes_of(x as int));
}

/// Parses raw ticks from a decompressed hour file.
///
/// Succeeds exactly when the buffer length is a multiple of the record
/// size; the result then holds every record in order.
pub fn parse_ticks(data: &Vec<u8>) -> (r: Result<Vec<RawTick>, ParseError>)
    ensures
        r is Ok <==> data.len() % 20 == 0,
        r matches Ok(ts) ==> ts@ == ticks_of(data@),
        r matches Err(e) ==> e == ParseError::InvalidLength(data.len() as usize, 20usize),
{
    if data.len() % RAW_TICK_SIZE != 0 {
        return Err(ParseError::InvalidLength(data.len(), RAW_TICK_SIZE));
    }
    let n: usize = data.len() / RAW_TICK_SIZE;
    let mut out: Vec<RawTick> = Vec::new();
    let mut k: usize = 0;
    while k < n
        invariant
            n == data.len() / 20,
            data.len() % 20 == 0,
            k <= n,
            out.len() == k,
            forall|j: int| 0 <= j < k ==> out[j] == ticks_of(data@)[j],
        decreases n - k,
    {
        proof {
            assert(20 * (k + 1) <= data.len()) by (nonlinear_arith)
                requires
                    k < n,
                    n == data.len() / 20,
                    data.len() % 20 == 0,
            ;
        }
        let base: usize = k * RAW_TICK_SIZE;
        let t = RawTick {
            ms_offset: read_be_u32(data, base),
            ask_raw: read_be_u32(data, base + 4),
            bid_raw: read_be_u32(data, base + 8),
            ask_volume_bits: read_be_u32(data, base + 12),
            bid_volume_bits: read_be_u32(data, base + 16),
        };
        proof {
            lemma_be_u32_round_trip(
                data@[base as int],
                data@[base + 1],
                data@[base + 2],
                data@[base + 3],
            );
            assert(t == ticks_of(data@)[k as int]);
        }
        out.push(t);
        k = k + 1;
    }
    proof {
        assert(out@ =~= ticks_of(data@));
    }
    Ok(out)
}

/// Packs records back into their wire form, the inverse of `parse_ticks`.
pub fn pack_ticks(ticks: &Vec<RawTick>) -> (r: Vec<u8>)
    requires
        ticks.len() * 20 <= usize::MAX,
    ensures
        r@ == bytes_of_ticks(ticks@),
{
    let mut out: Vec<u8> = Vec::new();
    let mut k: usize = 0;
    while k < ticks.len()
        invariant
            k <= ticks.len(),
            ticks.len() * 20 <= usize::MAX,
            out@ == bytes_of_ticks(ticks@.take(k as int)),
            out.len() == 20 * k,
        decreases ticks.len() - k,
    {
        let t = ticks[k];
        write_be_u32(&mut out, t.ms_offset);
        write_be_u32(&mut out, t.ask_raw);
        write_be_u32(&mut out, t.bid_raw);
        write_be_u32(&mut out, t.ask_volume_bits);
        write_be_u32(&mut out, t.bid_volume_bits);
        proof {
            lemma_bytes_of_ticks_snoc(ticks@.take(k as int), t);
            assert(ticks@.take(k as int).push(t) =~= ticks@.take(k + 1));
        }
        k = k + 1;
    }
    proof {
        assert(ticks@.take(ticks@.len() as int) =~= ticks@);
    }
    out
}

/// Appending one record appends its 20 bytes.
pub proof fn lemma_bytes_of_ticks_snoc(ts: Seq<RawTick>, t: RawTick)
    ensures
        bytes_of_ticks(ts.push(t)) == bytes_of_ticks(ts) + raw_tick_bytes(t),
    decreases ts.len(),
{
    if ts.len() == 0 {
        assert(ts.push(t)[0] == t);
        assert(ts.push(t).skip(1) =~= Seq::<RawTick>::empty());
        assert(bytes_of_ticks(Seq::<RawTick>::empty()) == Seq::<u8>::empty());
        assert(bytes_of_ticks(ts.push(t)) == raw_tick_bytes(ts.push(t)[0]) + bytes_of_ticks(
            ts.push(t).skip(1),
        ));
        assert(bytes_of_ticks(ts.push(t)) == raw_tick_bytes(t) + Seq::<u8>::empty());
        assert(raw_tick_bytes(t) + Seq::<u8>::empty() =~= bytes_of_ticks(ts) + raw_tick_bytes(t));
    } else {
        let a = raw_tick_bytes(ts[0]);
        let b = bytes_of_ticks(ts.skip(1));
        let c = raw_tick_bytes(t);
        lemma_bytes_of_ticks_snoc(ts.skip(1), t);
        assert(ts.push(t)[0] == ts[0]);
        assert(ts.push(t).skip(1) =~= ts.skip(1).push(t));
        assert(bytes_of_ticks(ts.push(t)) == a + (b + c));
        assert(a + (b + c) =~= (a + b) + c);
    }
}

/// Number of whole records in a buffer of the given length.
pub fn tick_count(data_len: usize) -> (n: usize)
    ensures
        n == data_len / 20,
{
    data_len / RAW_TICK_SIZE
}

} // verus!
