//! Tick data representation.
//!
//! Prices travel as scaled integers: the feed sends each price as a `u32`
//! that equals the real price times the instrument's decimal factor. The
//! library keeps prices in that exact form; dividing by the factor for
//! display is left to callers. Quoted volumes travel as IEEE-754 single
//! precision; the library carries their 32-bit patterns untouched.

use vstd::prelude::*;

verus! {

/// Size in bytes of a wire tick record.
pub const RAW_TICK_SIZE: usize = 20;

/// A raw tick as read from an hour file, before normalization.
#[derive(Clone, Copy, PartialEq, Eq, Structural, Debug)]
pub struct RawTick {
    /// Milliseconds from the start of the containing hour.
    pub ms_offset: u32,
    /// Ask price, scaled by the instrument's decimal factor.
    pub ask_raw: u32,
    /// Bid price, scaled by the instrument's decimal factor.
    pub bid_raw: u32,
    /// Bit pattern of the quoted ask volume (IEEE-754 single precision).
    pub ask_volume_bits: u32,
    /// Bit pattern of the quoted bid volume (IEEE-754 single precision).
    pub bid_volume_bits: u32,
}

impl RawTick {
    /// Creates a raw tick from its wire fields.
    pub fn new(
        ms_offset: u32,
        ask_raw: u32,
        bid_raw: u32,
        ask_volume_bits: u32,
        bid_volume_bits: u32,
    ) -> (r: RawTick)
        ensures
            r == (RawTick { ms_offset, ask_raw, bid_raw, ask_volume_bits, bid_volume_bits }),
    {
        RawTick { ms_offset, ask_raw, bid_raw, ask_volume_bits, bid_volume_bits }
    }

    /// The canonical tick this record denotes within the hour starting at
    /// `hour_ms` (milliseconds since the epoch).
    pub open spec fn normalized(self, hour_ms: int) -> Tick {
        Tick {
            timestamp_ms: (hour_ms + self.ms_offset) as u64,
            ask_raw: self.ask_raw,
            bid_raw: self.bid_raw,
            ask_volume_bits: self.ask_volume_bits,
            bid_volume_bits: self.bid_volume_bits,
        }
    }

    /// Anchors the record to its hour: the tick's timestamp is the hour
    /// start plus the record's millisecond offset, and every other field
    /// passes through unchanged.
    pub fn normalize(self, hour_ms: u64) -> (t: Tick)
        requires
            hour_ms + self.ms_offset <= u64::MAX,
        ensures
            t == self.normalized(hour_ms as int),
            t.timestamp_ms - hour_ms == self.ms_offset,
            t.ask_raw == self.ask_raw && t.bid_raw == self.bid_raw,
            t.ask_volume_bits == self.ask_volume_bits && t.bid_volume_bits
                == self.bid_volume_bits,
    {
        Tick {
            timestamp_ms: hour_ms + self.ms_offset as u64,
            ask_raw: self.ask_raw,
            bid_raw: self.bid_raw,
            ask_volume_bits: self.ask_volume_bits,
            bid_volume_bits: self.bid_volume_bits,
        }
    }
}

/// A single canonical tick: a price update at a millisecond instant.
#[derive(Clone, Copy, PartialEq, Eq, Structural, Debug)]
pub struct Tick {
    /// Milliseconds since 1970-01-01T00:00:00Z.
    pub timestamp_ms: u64,
    /// Ask price, scaled by the instrument's decimal factor.
    pub ask_raw: u32,
    /// Bid price, scaled by the instrument's decimal factor.
    pub bid_raw: u32,
    /// Bit pattern of the quoted ask volume (IEEE-754 single precision).
    pub ask_volume_bits: u32,
    /// Bit pattern of the quoted bid volume (IEEE-754 single precision).
    pub bid_volume_bits: u32,
}

impl Tick {
    /// Creates a tick from its fields.
    pub fn new(
        timestamp_ms: u64,
        ask_raw: u32,
        bid_raw: u32,
        ask_volume_bits: u32,
        bid_volume_bits: u32,
    ) -> (r: Tick)
        ensures
            r == (Tick { timestamp_ms, ask_raw, bid_raw, ask_volume_bits, bid_volume_bits }),
    {
        Tick { timestamp_ms, ask_raw, bid_raw, ask_volume_bits, bid_volume_bits }
    }

    /// Twice the mid price, in scaled units: ask plus bid. Kept doubled so
    /// it stays an exact integer.
    pub open spec fn mid2(self) -> int {
        self.ask_raw + self.bid_raw
    }

    /// Twice the mid price, in scaled units.
    pub fn mid_times_two(&self) -> (r: u64)
        ensures
            r == self.mid2(),
    {
        self.ask_raw as u64 + self.bid_raw as u64
    }

    /// The spread in scaled units: ask minus bid. Negative when the feed
    /// emits crossed quotes, which the parser accepts.
    pub fn spread_raw(&self) -> (r: i64)
        ensures
            r == self.ask_raw - self.bid_raw,
    {
        self.ask_raw as i64 - self.bid_raw as i64
    }
}

} // verus!
