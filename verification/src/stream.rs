//! The per-hour processing of the download pipeline.
//!
//! The pipeline fetches one compressed file per hour, decompresses it,
//! parses the records, and anchors them to the hour. The fetching itself
//! is I/O and lives outside the library; everything from the fetched
//! outcome to the finished batch is here. The strict path surfaces any
//! failure; the resilient path turns a failed hour into an empty batch
//! flagged `had_error`, so a long run never aborts.

use vstd::prelude::*;

use crate::client::DownloadError;
use crate::decompress::decompress_bi5;
use crate::decompress::lzma_plain;
use crate::decompress::DecompressError;
use crate::error::ParacasError;
use crate::parse::parse_ticks;
use crate::parse::ticks_of;
use crate::tick::RawTick;
use crate::tick::Tick;
use crate::time::DateHour;

verus! {

/// A batch of ticks from a single hour.
#[derive(Debug, Clone)]
pub struct TickBatch {
    /// Milliseconds since the epoch at which the hour starts.
    pub hour_ms: u64,
    /// The ticks in this batch.
    pub ticks: Vec<Tick>,
    /// Whether this batch stands for an hour whose failure was skipped.
    pub had_error: bool,
}

impl TickBatch {
    /// Creates a new tick batch.
    pub fn new(hour_ms: u64, ticks: Vec<Tick>) -> (r: TickBatch)
        ensures
            r.hour_ms == hour_ms,
            r.ticks == ticks,
            r.had_error == false,
    {
        TickBatch { hour_ms, ticks, had_error: false }
    }

    /// Creates the empty batch that stands for a skipped, failed hour.
    pub fn skipped_error(hour_ms: u64) -> (r: TickBatch)
        ensures
            r.hour_ms == hour_ms,
            r.ticks@ == Seq::<Tick>::empty(),
            r.had_error == true,
    {
        let r = TickBatch { hour_ms, ticks: Vec::new(), had_error: true };
        proof {
            assert(r.ticks@ =~= Seq::<Tick>::empty());
        }
        r
    }

    /// Returns true if the batch holds no ticks.
    pub fn is_empty(&self) -> (r: bool)
        ensures
            r == (self.ticks@.len() == 0),
    {
        self.ticks.len() == 0
    }

    /// Returns the number of ticks in the batch.
    pub fn len(&self) -> (r: usize)
        ensures
            r == self.ticks@.len(),
    {
        self.ticks.len()
    }

    /// Returns true if this batch had an error that was skipped.
    pub fn had_error(&self) -> (r: bool)
        ensures
            r == self.had_error,
    {
        self.had_error
    }
}

/// The raw records anchored to their hour, in order.
pub open spec fn normalized_ticks(rs: Seq<RawTick>, hour_ms: int) -> Seq<Tick> {
    Seq::new(rs.len(), |i: int| rs[i].normalized(hour_ms))
}

/// Whether a fetched outcome yields a well-formed batch: either the hour
/// is absent, or the body is a non-empty well-formed LZMA stream whose
/// decoded length is a whole number of records.
pub open spec fn outcome_ok(oc: Result<Option<Vec<u8>>, DownloadError>) -> bool {
    match oc {
        Result::Ok(Option::Some(b)) => b@.len() > 0 && lzma_plain(b@) is Some && lzma_plain(
            b@,
        )->Some_0.len() % 20 == 0,
        Result::Ok(Option::None) => true,
        Result::Err(_) => false,
    }
}

/// The ticks a fetched outcome yields: the decoded, parsed, hour-anchored
/// records of a present body; none for an absent hour or any failure.
pub open spec fn outcome_ticks(oc: Result<Option<Vec<u8>>, DownloadError>, hour_ms: int) -> Seq<
    Tick,
> {
    match oc {
        Result::Ok(Option::Some(b)) => if outcome_ok(oc) {
            normalized_ticks(ticks_of(lzma_plain(b@)->Some_0), hour_ms)
        } else {
            Seq::empty()
        },
        _ => Seq::empty(),
    }
}

/// Turns one hour's fetched outcome into a batch, surfacing any failure.
///
/// A present body is decompressed and parsed; an absent hour gives an
/// empty batch; an HTTP failure, a malformed stream, and a ragged record
/// array each give the matching error.
pub fn process_download_result(hour_ms: u64, result: Result<Option<Vec<u8>>, DownloadError>) -> (r:
    Result<TickBatch, ParacasError>)
    requires
        hour_ms + 0xFFFF_FFFFu64 <= u64::MAX,
    ensures
        r is Ok <==> outcome_ok(result),
        r matches Ok(b) ==> b.hour_ms == hour_ms && b.had_error == false && b.ticks@
            == outcome_ticks(result, hour_ms as int),
        result matches Err(e) ==> (r matches Err(pe) && pe matches ParacasError::Http(m) && m@
            == e.message_chars()),
        result matches Ok(Some(b)) && !outcome_ok(result) ==> (r matches Err(pe) && (
        pe is Decompress || pe is Parse)),
{
    match result {
        Err(e) => Err(ParacasError::Http(e.message())),
        Ok(None) => {
            let empty: Vec<Tick> = Vec::new();
            proof {
                assert(empty@ =~= outcome_ticks(result, hour_ms as int));
            }
            Ok(TickBatch::new(hour_ms, empty))
        },
        Ok(Some(body)) => {
            let plain = match decompress_bi5(&body) {
                Ok(p) => p,
                Err(DecompressError::EmptyInput) => {
                    return Err(ParacasError::Decompress(crate::text::chars_to_string(&Vec::new())));
                },
                Err(DecompressError::LzmaError(m)) => {
                    return Err(ParacasError::Decompress(m));
                },
            };
            let raw = match parse_ticks(&plain) {
                Ok(rs) => rs,
                Err(_) => {
                    return Err(ParacasError::Parse(crate::text::chars_to_string(&Vec::new())));
                },
            };
            let mut ticks: Vec<Tick> = Vec::new();
            let mut k: usize = 0;
            while k < raw.len()
                invariant
                    hour_ms + 0xFFFF_FFFFu64 <= u64::MAX,
                    k <= raw@.len(),
                    ticks@.len() == k,
                    forall|i: int|
                        0 <= i < k ==> ticks@[i] == (#[trigger] raw@[i]).normalized(hour_ms as int),
                decreases raw@.len() - k,
            {
                ticks.push(raw[k].normalize(hour_ms));
                k = k + 1;
            }
            proof {
                assert(ticks@ =~= outcome_ticks(result, hour_ms as int));
            }
            Ok(TickBatch::new(hour_ms, ticks))
        },
    }
}

/// Turns one hour's fetched outcome into a batch, skipping any failure:
/// a failed hour becomes an empty batch flagged `had_error`.
pub fn process_download_result_resilient(
    hour_ms: u64,
    result: Result<Option<Vec<u8>>, DownloadError>,
) -> (b: TickBatch)
    requires
        hour_ms + 0xFFFF_FFFFu64 <= u64::MAX,
    ensures
        b.hour_ms == hour_ms,
        b.had_error == !outcome_ok(result),
        b.ticks@ == outcome_ticks(result, hour_ms as int),
{
    match process_download_result(hour_ms, result) {
        Ok(b) => b,
        Err(_) => TickBatch::skipped_error(hour_ms),
    }
}

/// Builds the batches of a whole range from the fetched outcome of each
/// hour: exactly one batch per hour, in the hours' order, each carrying
/// its own hour stamp, the parsed ticks of a sound outcome, and the error
/// flag of a failed one.
pub fn resilient_batches(
    hours: &Vec<DateHour>,
    outcomes: Vec<Result<Option<Vec<u8>>, DownloadError>>,
) -> (batches: Vec<TickBatch>)
    requires
        hours@.len() == outcomes@.len(),
        forall|i: int| 0 <= i < hours@.len() ==> (#[trigger] hours@[i]).wf(),
    ensures
        batches@.len() == hours@.len(),
        forall|i: int|
            0 <= i < batches@.len() ==> {
                &&& (#[trigger] batches@[i]).hour_ms == hours@[i].epoch_ms()
                &&& batches@[i].had_error == !outcome_ok(outcomes@[i])
                &&& batches@[i].ticks@ == outcome_ticks(outcomes@[i], hours@[i].epoch_ms())
            },
{
    let mut batches: Vec<TickBatch> = Vec::new();
    let mut rest = outcomes;
    let mut k: usize = 0;
    while k < hours.len()
        invariant
            hours@.len() == outcomes@.len(),
            forall|i: int| 0 <= i < hours@.len() ==> (#[trigger] hours@[i]).wf(),
            k <= hours@.len(),
            rest@ == outcomes@.skip(k as int),
            batches@.len() == k,
            forall|i: int|
                0 <= i < k ==> {
                    &&& (#[trigger] batches@[i]).hour_ms == hours@[i].epoch_ms()
                    &&& batches@[i].had_error == !outcome_ok(outcomes@[i])
                    &&& batches@[i].ticks@ == outcome_ticks(outcomes@[i], hours@[i].epoch_ms())
                },
        decreases hours@.len() - k,
    {
        let h = hours[k];
        let hour_ms = h.start_ms();
        proof {
            crate::time::lemma_index_small(h.date);
            assert(rest@[0] == outcomes@[k as int]);
        }
        let oc = rest.remove(0);
        let b = process_download_result_resilient(hour_ms, oc);
        batches.push(b);
        proof {
            assert(rest@ =~= outcomes@.skip(k + 1));
        }
        k = k + 1;
    }
    batches
}

/// The ticks of a sequence of batches, concatenated in batch order.
pub open spec fn flat_ticks(batches: Seq<TickBatch>) -> Seq<Tick>
    decreases batches.len(),
{
    if batches.len() == 0 {
        Seq::empty()
    } else {
        flat_ticks(batches.drop_last()) + batches.last().ticks@
    }
}

/// Flattens a sequence of batches into their ticks, in batch order.
pub fn flatten_ticks(batches: &Vec<TickBatch>) -> (r: Vec<Tick>)
    ensures
        r@ == flat_ticks(batches@),
{
    let mut out: Vec<Tick> = Vec::new();
    let mut k: usize = 0;
    while k < batches.len()
        invariant
            k <= batches@.len(),
            out@ == flat_ticks(batches@.take(k as int)),
        decreases batches@.len() - k,
    {
        let mut j: usize = 0;
        while j < batches[k].ticks.len()
            invariant
                k < batches@.len(),
                j <= batches@[k as int].ticks@.len(),
                out@ == flat_ticks(batches@.take(k as int)) + batches@[k as int].ticks@.take(
                    j as int,
                ),
            decreases batches@[k as int].ticks@.len() - j,
        {
            out.push(batches[k].ticks[j]);
            proof {
                assert(flat_ticks(batches@.take(k as int)) + batches@[k as int].ticks@.take(j as int)
                    + seq![batches@[k as int].ticks@[j as int]] =~= flat_ticks(
                    batches@.take(k as int),
                ) + batches@[k as int].ticks@.take(j + 1));
            }
            j = j + 1;
        }
        proof {
            assert(batches@.take(k + 1).drop_last() =~= batches@.take(k as int));
            assert(batches@[k as int].ticks@.take(batches@[k as int].ticks@.len() as int) =~=
                batches@[k as int].ticks@);
            assert(out@ =~= flat_ticks(batches@.take(k + 1)));
        }
        k = k + 1;
    }
    proof {
        assert(batches@.take(batches@.len() as int) =~= batches@);
    }
    out
}

/// One batch per hour, and no hour twice: over the hour sequence of a
/// range, the batches' hour stamps are exactly the range's hours, which
/// are pairwise distinct.
pub proof fn lemma_one_batch_per_hour(
    r: crate::time::DateRange,
    v: Seq<DateHour>,
    batches: Seq<TickBatch>,
)
    requires
        r.wf(),
        v.len() == r.day_count() * 24,
        forall|i: int|
            0 <= i < v.len() ==> (#[trigger] v[i]).wf() && v[i].epoch_ms() == (r.start.index() * 24
                + i) * crate::time::MS_PER_HOUR,
        batches.len() == v.len(),
        forall|i: int|
            0 <= i < batches.len() ==> (#[trigger] batches[i]).hour_ms == v[i].epoch_ms(),
    ensures
        batches.len() == r.day_count() * 24,
        forall|i: int, j: int|
            0 <= i < j < batches.len() ==> (#[trigger] batches[i]).hour_ms != (
            #[trigger] batches[j]).hour_ms,
{
    assert forall|i: int, j: int| 0 <= i < j < batches.len() implies (
    #[trigger] batches[i]).hour_ms != (#[trigger] batches[j]).hour_ms by {
        assert(v[i].epoch_ms() < v[j].epoch_ms());
    }
}

} // verus!
