//! Download size and duration estimation.
//!
//! Estimates rest on per-category averages of compressed bytes and ticks
//! per hour. Peak multipliers are carried in percent so every figure stays
//! an exact integer; sums and products clamp at the 64-bit maximum instead
//! of overflowing. The assumed link speed is whole megabits per second,
//! so the duration arithmetic is exact as well.

use vstd::prelude::*;

use crate::instrument::Instrument;
use crate::text::chars_eq;
use crate::text::chars_to_string;
use crate::text::dec_chars;
use crate::text::dec_chars_padded;
use crate::text::push_decimal;
use crate::text::push_decimal_padded;
use crate::text::push_str_chars;
use crate::text::str_to_chars;
use crate::time::DateRange;

verus! {

/// Ratio of uncompressed to compressed hour-file size.
pub const COMPRESSION_RATIO: u64 = 10;

/// Default assumed download speed in megabits per second.
pub const DEFAULT_DOWNLOAD_SPEED_MBPS: u64 = 10;

/// Addition clamped at the 64-bit maximum.
pub open spec fn add_clamped(a: int, b: int) -> int {
    if a + b > u64::MAX {
        u64::MAX as int
    } else {
        a + b
    }
}

/// Multiplication clamped at the 64-bit maximum.
pub open spec fn mul_clamped(a: int, b: int) -> int {
    if a * b > u64::MAX {
        u64::MAX as int
    } else {
        a * b
    }
}

/// Adds two counters, clamping at the 64-bit maximum.
pub fn sat_add(a: u64, b: u64) -> (r: u64)
    ensures
        r == add_clamped(a as int, b as int),
{
    if a > u64::MAX - b {
        u64::MAX
    } else {
        a + b
    }
}

/// Multiplies two counters, clamping at the 64-bit maximum.
pub fn sat_mul(a: u64, b: u64) -> (r: u64)
    ensures
        r == mul_clamped(a as int, b as int),
{
    proof {
        assert(a as int * b as int <= u128::MAX) by (nonlinear_arith)
            requires
                a <= u64::MAX,
                b <= u64::MAX,
        ;
    }
    let wide: u128 = a as u128 * b as u128;
    if wide > u64::MAX as u128 {
        u64::MAX
    } else {
        wide as u64
    }
}

/// Confidence level of an estimate.
#[derive(Clone, Copy, PartialEq, Eq, Structural, Debug, Hash)]
pub enum EstimateConfidence {
    /// Well-known category with good historical data.
    High,
    /// Known category with more variability.
    Medium,
    /// Unknown category.
    Low,
}

impl EstimateConfidence {
    /// The lowercase tag of the confidence level.
    pub open spec fn tag(self) -> Seq<char> {
        match self {
            EstimateConfidence::High => seq!['h', 'i', 'g', 'h'],
            EstimateConfidence::Medium => seq!['m', 'e', 'd', 'i', 'u', 'm'],
            EstimateConfidence::Low => seq!['l', 'o', 'w'],
        }
    }

    /// Returns the confidence as its string tag.
    pub fn as_str(&self) -> (r: &'static str)
        ensures
            r@ == self.tag(),
    {
        proof {
            reveal_strlit("high");
            reveal_strlit("medium");
            reveal_strlit("low");
        }
        match self {
            EstimateConfidence::High => "high",
            EstimateConfidence::Medium => "medium",
            EstimateConfidence::Low => "low",
        }
    }
}

/// Size estimate for a single instrument category.
#[derive(Debug, Clone)]
pub struct CategoryEstimate {
    /// Category tag (e.g., "forex").
    pub category: String,
    /// Average compressed bytes per hour of data.
    pub avg_compressed_bytes_per_hour: u64,
    /// Average number of ticks per hour.
    pub avg_ticks_per_hour: u64,
    /// Multiplier for peak trading hours, in percent (200 doubles).
    pub peak_multiplier_percent: u64,
}

impl CategoryEstimate {
    /// Creates a new category estimate.
    pub fn new(
        category: String,
        avg_compressed_bytes_per_hour: u64,
        avg_ticks_per_hour: u64,
        peak_multiplier_percent: u64,
    ) -> (r: CategoryEstimate)
        ensures
            r.category@ == category@,
            r.avg_compressed_bytes_per_hour == avg_compressed_bytes_per_hour,
            r.avg_ticks_per_hour == avg_ticks_per_hour,
            r.peak_multiplier_percent == peak_multiplier_percent,
    {
        CategoryEstimate {
            category,
            avg_compressed_bytes_per_hour,
            avg_ticks_per_hour,
            peak_multiplier_percent,
        }
    }

    /// The compressed bytes per hour at peak: the average scaled by the
    /// peak percentage.
    pub fn max_compressed_bytes_per_hour(&self) -> (r: u64)
        ensures
            r == mul_clamped(
                self.avg_compressed_bytes_per_hour as int,
                self.peak_multiplier_percent as int,
            ) / 100,
    {
        sat_mul(self.avg_compressed_bytes_per_hour, self.peak_multiplier_percent) / 100
    }

    /// The ticks per hour at peak: the average scaled by the peak
    /// percentage.
    pub fn max_ticks_per_hour(&self) -> (r: u64)
        ensures
            r == mul_clamped(
                self.avg_ticks_per_hour as int,
                self.peak_multiplier_percent as int,
            ) / 100,
    {
        sat_mul(self.avg_ticks_per_hour, self.peak_multiplier_percent) / 100
    }
}

/// Database of size estimates per instrument category.
#[derive(Debug)]
pub struct EstimateDatabase {
    categories: Vec<CategoryEstimate>,
}

/// The first category estimate matching a tag.
pub open spec fn find_category(s: Seq<CategoryEstimate>, tag: Seq<char>) -> Option<
    CategoryEstimate,
>
    decreases s.len(),
{
    if s.len() == 0 {
        None
    } else if s[0].category@ == tag {
        Some(s[0])
    } else {
        find_category(s.drop_first(), tag)
    }
}

impl EstimateDatabase {
    /// The estimates held.
    pub closed spec fn entries(self) -> Seq<CategoryEstimate> {
        self.categories@
    }

    /// Builds a database over the given category estimates.
    pub fn new(categories: Vec<CategoryEstimate>) -> (r: EstimateDatabase)
        ensures
            r.entries() == categories@,
    {
        EstimateDatabase { categories }
    }

    /// The built-in historical averages, one entry per category.
    pub fn builtin() -> (r: EstimateDatabase)
        ensures
            r.entries().len() == 7,
    {
        let v = vec![
            CategoryEstimate::new(String::from_str("forex"), 75_000, 5_000, 200),
            CategoryEstimate::new(String::from_str("crypto"), 150_000, 10_000, 250),
            CategoryEstimate::new(String::from_str("index"), 100_000, 8_000, 200),
            CategoryEstimate::new(String::from_str("stock"), 50_000, 3_000, 200),
            CategoryEstimate::new(String::from_str("commodity"), 80_000, 6_000, 200),
            CategoryEstimate::new(String::from_str("etf"), 40_000, 2_500, 200),
            CategoryEstimate::new(String::from_str("bond"), 30_000, 2_000, 150),
        ];
        EstimateDatabase { categories: v }
    }

    /// Returns the estimate for a category tag: the first entry whose tag
    /// matches exactly.
    pub fn get(&self, category: &str) -> (r: Option<&CategoryEstimate>)
        ensures
            match r {
                Some(e) => find_category(self.entries(), category@) == Some(*e),
                None => find_category(self.entries(), category@) is None,
            },
    {
        proof {
            assert(self.entries().skip(0) =~= self.entries());
        }
        let mut k: usize = 0;
        while k < self.categories.len()
            invariant
                k <= self.entries().len(),
                find_category(self.entries(), category@) == find_category(
                    self.entries().skip(k as int),
                    category@,
                ),
            decreases self.entries().len() - k,
        {
            let tag = str_to_chars(self.categories[k].category.as_str());
            let query = str_to_chars(category);
            proof {
                assert(self.entries().skip(k as int)[0] == self.entries()[k as int]);
            }
            if chars_eq(&tag, &query) {
                return Some(&self.categories[k]);
            }
            proof {
                assert(self.entries().skip(k as int).drop_first() =~= self.entries().skip(k + 1));
            }
            k = k + 1;
        }
        proof {
            assert(self.entries().skip(self.entries().len() as int) =~= Seq::<
                CategoryEstimate,
            >::empty());
        }
        None
    }

    /// Returns the number of categories in the database.
    pub fn len(&self) -> (r: usize)
        ensures
            r == self.entries().len(),
    {
        self.categories.len()
    }

    /// Returns true if the database is empty.
    pub fn is_empty(&self) -> (r: bool)
        ensures
            r == (self.entries().len() == 0),
    {
        self.categories.len() == 0
    }

    /// The estimate used for a category the database does not know.
    pub fn default_estimate() -> (r: CategoryEstimate)
        ensures
            r.category@ == "unknown"@,
            r.avg_compressed_bytes_per_hour == 50_000,
            r.avg_ticks_per_hour == 3_000,
            r.peak_multiplier_percent == 200,
    {
        CategoryEstimate::new(String::from_str("unknown"), 50_000, 3_000, 200)
    }
}

/// Estimated download metrics.
#[derive(Debug, Clone, PartialEq, Eq, Structural)]
pub struct DownloadEstimate {
    /// Total hours of data to download.
    pub total_hours: u64,
    /// Estimated compressed bytes to download.
    pub estimated_compressed_bytes: u64,
    /// Estimated uncompressed bytes.
    pub estimated_uncompressed_bytes: u64,
    /// Estimated output file size in bytes.
    pub estimated_output_bytes: u64,
    /// Estimated number of ticks.
    pub estimated_ticks: u64,
    /// Estimated download duration, in milliseconds.
    pub estimated_duration_ms: u64,
    /// Confidence level of the estimate.
    pub confidence: EstimateConfidence,
}

impl DownloadEstimate {
    /// Creates a new download estimate.
    pub fn new(
        total_hours: u64,
        estimated_compressed_bytes: u64,
        estimated_uncompressed_bytes: u64,
        estimated_output_bytes: u64,
        estimated_ticks: u64,
        estimated_duration_ms: u64,
        confidence: EstimateConfidence,
    ) -> (r: DownloadEstimate)
        ensures
            r == (DownloadEstimate {
                total_hours,
                estimated_compressed_bytes,
                estimated_uncompressed_bytes,
                estimated_output_bytes,
                estimated_ticks,
                estimated_duration_ms,
                confidence,
            }),
    {
        DownloadEstimate {
            total_hours,
            estimated_compressed_bytes,
            estimated_uncompressed_bytes,
            estimated_output_bytes,
            estimated_ticks,
            estimated_duration_ms,
            confidence,
        }
    }

    /// The empty estimate: zero hours, zero bytes, high confidence.
    pub fn empty() -> (r: DownloadEstimate)
        ensures
            r == (DownloadEstimate {
                total_hours: 0u64,
                estimated_compressed_bytes: 0u64,
                estimated_uncompressed_bytes: 0u64,
                estimated_output_bytes: 0u64,
                estimated_ticks: 0u64,
                estimated_duration_ms: 0u64,
                confidence: EstimateConfidence::High,
            }),
    {
        DownloadEstimate {
            total_hours: 0,
            estimated_compressed_bytes: 0,
            estimated_uncompressed_bytes: 0,
            estimated_output_bytes: 0,
            estimated_ticks: 0,
            estimated_duration_ms: 0,
            confidence: EstimateConfidence::High,
        }
    }
}

/// Download size and time estimator.
#[derive(Debug, Clone, Copy, PartialEq, Eq, Structural)]
pub struct Estimator {
    /// Assumed download speed in megabits per second.
    pub assumed_download_speed_mbps: u64,
}

/// The average compressed bytes per hour an instrument resolves to: its
/// category's entry, or the default when the category is unknown.
pub open spec fn resolved_avg_bytes(db: Seq<CategoryEstimate>, inst: Instrument) -> int {
    match find_category(db, inst.category_spec().tag()) {
        Some(e) => e.avg_compressed_bytes_per_hour as int,
        None => 50_000,
    }
}

/// The average ticks per hour an instrument resolves to.
pub open spec fn resolved_avg_ticks(db: Seq<CategoryEstimate>, inst: Instrument) -> int {
    match find_category(db, inst.category_spec().tag()) {
        Some(e) => e.avg_ticks_per_hour as int,
        None => 3_000,
    }
}

/// Whether an instrument's category is known to the database.
pub open spec fn resolved_known(db: Seq<CategoryEstimate>, inst: Instrument) -> bool {
    find_category(db, inst.category_spec().tag()) is Some
}

/// Clamped sum of the resolved per-hour byte averages, each scaled by the
/// hour count.
pub open spec fn batch_bytes(db: Seq<CategoryEstimate>, insts: Seq<Instrument>, hours: int) -> int
    decreases insts.len(),
{
    if insts.len() == 0 {
        0
    } else {
        add_clamped(
            batch_bytes(db, insts.drop_last(), hours),
            mul_clamped(resolved_avg_bytes(db, insts.last()), hours),
        )
    }
}

/// Clamped sum of the resolved per-hour tick averages, each scaled by the
/// hour count.
pub open spec fn batch_ticks(db: Seq<CategoryEstimate>, insts: Seq<Instrument>, hours: int) -> int
    decreases insts.len(),
{
    if insts.len() == 0 {
        0
    } else {
        add_clamped(
            batch_ticks(db, insts.drop_last(), hours),
            mul_clamped(resolved_avg_ticks(db, insts.last()), hours),
        )
    }
}

/// Whether every instrument's category is known.
pub open spec fn batch_known(db: Seq<CategoryEstimate>, insts: Seq<Instrument>) -> bool {
    forall|i: int| 0 <= i < insts.len() ==> resolved_known(db, #[trigger] insts[i])
}

impl Estimator {
    /// Creates a new estimator with the given assumed speed.
    pub fn new(assumed_download_speed_mbps: u64) -> (r: Estimator)
        ensures
            r.assumed_download_speed_mbps == assumed_download_speed_mbps,
    {
        Estimator { assumed_download_speed_mbps }
    }

    /// Returns the assumed download speed in megabits per second.
    pub fn download_speed_mbps(&self) -> (r: u64)
        ensures
            r == self.assumed_download_speed_mbps,
    {
        self.assumed_download_speed_mbps
    }

    /// The estimated duration in milliseconds for the given compressed
    /// volume: the volume divided by 125 times the speed in Mbps (125
    /// bytes per millisecond per megabit).
    pub fn duration_ms(&self, compressed_bytes: u64) -> (r: u64)
        requires
            1 <= self.assumed_download_speed_mbps <= 1_000_000,
        ensures
            r == compressed_bytes as int / (125 * self.assumed_download_speed_mbps as int),
    {
        compressed_bytes / (125 * self.assumed_download_speed_mbps)
    }

    /// Estimates the download for one instrument over a date range.
    ///
    /// The category's averages (or the defaults, at low confidence, when
    /// the category is unknown) are scaled by the range's hour count; the
    /// uncompressed and output sizes apply the compression ratio.
    pub fn estimate_single(
        &self,
        instrument: &Instrument,
        date_range: &DateRange,
        db: &EstimateDatabase,
    ) -> (r: DownloadEstimate)
        requires
            date_range.wf(),
            1 <= self.assumed_download_speed_mbps <= 1_000_000,
        ensures
            r.total_hours == date_range.day_count() * 24,
            r.estimated_compressed_bytes == mul_clamped(
                resolved_avg_bytes(db.entries(), *instrument),
                date_range.day_count() * 24,
            ),
            r.estimated_uncompressed_bytes == mul_clamped(
                r.estimated_compressed_bytes as int,
                COMPRESSION_RATIO as int,
            ),
            r.estimated_output_bytes == r.estimated_uncompressed_bytes,
            r.estimated_ticks == mul_clamped(
                resolved_avg_ticks(db.entries(), *instrument),
                date_range.day_count() * 24,
            ),
            r.estimated_duration_ms == r.estimated_compressed_bytes as int / (125
                * self.assumed_download_speed_mbps as int),
            r.confidence == (if resolved_known(db.entries(), *instrument) {
                EstimateConfidence::High
            } else {
                EstimateConfidence::Low
            }),
    {
        let hours: u64 = date_range.total_hours();
        let (avg_bytes, avg_ticks, known): (u64, u64, bool) = match db.get(
            instrument.category().as_str(),
        ) {
            Some(e) => (e.avg_compressed_bytes_per_hour, e.avg_ticks_per_hour, true),
            None => (50_000, 3_000, false),
        };
        let compressed = sat_mul(avg_bytes, hours);
        let uncompressed = sat_mul(compressed, COMPRESSION_RATIO);
        let ticks = sat_mul(avg_ticks, hours);
        DownloadEstimate {
            total_hours: hours,
            estimated_compressed_bytes: compressed,
            estimated_uncompressed_bytes: uncompressed,
            estimated_output_bytes: uncompressed,
            estimated_ticks: ticks,
            estimated_duration_ms: self.duration_ms(compressed),
            confidence: if known {
                EstimateConfidence::High
            } else {
                EstimateConfidence::Low
            },
        }
    }

    /// Estimates the download for a batch of instruments over one date
    /// range: per-instrument figures are summed (clamped), the hour total
    /// counts every instrument, and the confidence is high only when
    /// every category is known.
    pub fn estimate_batch(
        &self,
        instruments: &Vec<Instrument>,
        date_range: &DateRange,
        db: &EstimateDatabase,
    ) -> (r: DownloadEstimate)
        requires
            date_range.wf(),
            1 <= self.assumed_download_speed_mbps <= 1_000_000,
        ensures
            instruments@.len() == 0 ==> r == (DownloadEstimate {
                total_hours: 0u64,
                estimated_compressed_bytes: 0u64,
                estimated_uncompressed_bytes: 0u64,
                estimated_output_bytes: 0u64,
                estimated_ticks: 0u64,
                estimated_duration_ms: 0u64,
                confidence: EstimateConfidence::High,
            }),
            instruments@.len() > 0 ==> {
                &&& r.total_hours == mul_clamped(
                    date_range.day_count() * 24,
                    instruments@.len() as int,
                )
                &&& r.estimated_compressed_bytes == batch_bytes(
                    db.entries(),
                    instruments@,
                    date_range.day_count() * 24,
                )
                &&& r.estimated_ticks == batch_ticks(
                    db.entries(),
                    instruments@,
                    date_range.day_count() * 24,
                )
                &&& r.estimated_uncompressed_bytes == mul_clamped(
                    r.estimated_compressed_bytes as int,
                    COMPRESSION_RATIO as int,
                )
                &&& r.estimated_output_bytes == r.estimated_uncompressed_bytes
                &&& r.estimated_duration_ms == r.estimated_compressed_bytes as int / (125
                    * self.assumed_download_speed_mbps as int)
                &&& r.confidence == (if batch_known(db.entries(), instruments@) {
                    EstimateConfidence::High
                } else {
                    EstimateConfidence::Low
                })
            },
    {
        if instruments.len() == 0 {
            return DownloadEstimate::empty();
        }
        let hours: u64 = date_range.total_hours();
        let mut total_bytes: u64 = 0;
        let mut total_ticks: u64 = 0;
        let mut all_known: bool = true;
        let mut k: usize = 0;
        while k < instruments.len()
            invariant
                date_range.wf(),
                k <= instruments@.len(),
                hours == date_range.day_count() * 24,
                total_bytes == batch_bytes(db.entries(), instruments@.take(k as int), hours as int),
                total_ticks == batch_ticks(db.entries(), instruments@.take(k as int), hours as int),
                all_known == batch_known(db.entries(), instruments@.take(k as int)),
            decreases instruments@.len() - k,
        {
            proof {
                assert(instruments@.take(k + 1).drop_last() =~= instruments@.take(k as int));
                assert(instruments@.take(k + 1).last() == instruments@[k as int]);
            }
            let (avg_bytes, avg_ticks, known): (u64, u64, bool) = match db.get(
                instruments[k].category().as_str(),
            ) {
                Some(e) => (e.avg_compressed_bytes_per_hour, e.avg_ticks_per_hour, true),
                None => (50_000, 3_000, false),
            };
            total_bytes = sat_add(total_bytes, sat_mul(avg_bytes, hours));
            total_ticks = sat_add(total_ticks, sat_mul(avg_ticks, hours));
            all_known = all_known && known;
            proof {
                if !batch_known(db.entries(), instruments@.take(k as int)) {
                    let w = choose|w: int|
                        0 <= w < k && !resolved_known(
                            db.entries(),
                            #[trigger] instruments@.take(k as int)[w],
                        );
                    assert(instruments@.take(k + 1)[w] == instruments@.take(k as int)[w]);
                }
            }
            k = k + 1;
        }
        proof {
            assert(instruments@.take(instruments@.len() as int) =~= instruments@);
        }
        let uncompressed = sat_mul(total_bytes, COMPRESSION_RATIO);
        DownloadEstimate {
            total_hours: sat_mul(hours, instruments.len() as u64),
            estimated_compressed_bytes: total_bytes,
            estimated_uncompressed_bytes: uncompressed,
            estimated_output_bytes: uncompressed,
            estimated_ticks: total_ticks,
            estimated_duration_ms: self.duration_ms(total_bytes),
            confidence: if all_known {
                EstimateConfidence::High
            } else {
                EstimateConfidence::Low
            },
        }
    }
}

impl Default for Estimator {
    /// The default estimator assumes the default link speed.
    fn default() -> (r: Self)
        ensures
            r.assumed_download_speed_mbps == DEFAULT_DOWNLOAD_SPEED_MBPS,
    {
        Estimator { assumed_download_speed_mbps: DEFAULT_DOWNLOAD_SPEED_MBPS }
    }
}

/// The "W.FF" form of a value measured against a unit: the whole part and
/// two fractional digits of the quotient, rounded half up.
pub open spec fn two_dec_chars(n: int, unit: int) -> Seq<char> {
    let whole = n / unit;
    let frac = (n % unit * 100 + unit / 2) / unit;
    dec_chars((whole * 100 + frac) / 100) + seq!['.'] + dec_chars_padded(
        (whole * 100 + frac) % 100,
        2,
    )
}

/// The human-readable form of a byte count: two-decimal KB, MB, GB or TB
/// above each threshold, plain bytes below one KB.
pub open spec fn bytes_chars(n: int) -> Seq<char> {
    if n >= 0x10000000000 {
        two_dec_chars(n, 0x10000000000) + " TB"@
    } else if n >= 0x40000000 {
        two_dec_chars(n, 0x40000000) + " GB"@
    } else if n >= 0x100000 {
        two_dec_chars(n, 0x100000) + " MB"@
    } else if n >= 0x400 {
        two_dec_chars(n, 0x400) + " KB"@
    } else {
        dec_chars(n) + " B"@
    }
}

/// Formats a byte count in human-readable form (e.g., "1.50 KB").
pub fn format_bytes(bytes: u64) -> (r: String)
    ensures
        r@ == bytes_chars(bytes as int),
{
    let mut out: Vec<char> = Vec::new();
    if bytes >= 0x10000000000 {
        push_scaled(&mut out, bytes, 0x10000000000, " TB");
    } else if bytes >= 0x40000000 {
        push_scaled(&mut out, bytes, 0x40000000, " GB");
    } else if bytes >= 0x100000 {
        push_scaled(&mut out, bytes, 0x100000, " MB");
    } else if bytes >= 0x400 {
        push_scaled(&mut out, bytes, 0x400, " KB");
    } else {
        push_decimal(&mut out, bytes);
        push_str_chars(&mut out, " B");
    }
    proof {
        assert(out@ =~= bytes_chars(bytes as int));
    }
    chars_to_string(&out)
}

/// Appends the two-decimal form of `n / unit` followed by a suffix,
/// dividing down first so the scaling arithmetic cannot overflow.
fn push_scaled(out: &mut Vec<char>, n: u64, unit: u64, suffix: &str)
    requires
        1024 <= unit <= 0x10000000000,
    ensures
        final(out)@ == old(out)@ + two_dec_chars(n as int, unit as int) + suffix@,
{
    let whole: u64 = n / unit;
    let rem: u64 = n % unit;
    proof {
        assert(rem < unit && whole <= n / 1024) by (nonlinear_arith)
            requires
                1024 <= unit,
                whole == n / unit,
                rem == n % unit,
                n >= 0,
        ;
        assert((rem * 100 + unit / 2) / (unit as int) <= 100) by (nonlinear_arith)
            requires
                0 <= rem < unit,
                unit >= 1024,
        ;
    }
    let frac: u64 = (rem * 100 + unit / 2) / unit;
    let scaled: u64 = whole * 100 + frac;
    push_decimal(out, scaled / 100);
    out.push('.');
    push_decimal_padded(out, scaled % 100, 2);
    push_str_chars(out, suffix);
    proof {
        assert(out@ =~= old(out)@ + two_dec_chars(n as int, unit as int) + suffix@);
    }
}

/// The human-readable form of a duration in seconds: hours and minutes,
/// minutes (with seconds when short), or bare seconds.
pub open spec fn duration_chars(secs: int) -> Seq<char> {
    let h = secs / 3600;
    let m = (secs % 3600) / 60;
    let s = secs % 60;
    if h > 0 {
        if m > 0 {
            dec_chars(h) + "h "@ + dec_chars(m) + "m"@
        } else {
            dec_chars(h) + "h"@
        }
    } else if m > 0 {
        if s > 0 && m < 10 {
            dec_chars(m) + "m "@ + dec_chars(s) + "s"@
        } else {
            dec_chars(m) + "m"@
        }
    } else {
        dec_chars(s) + "s"@
    }
}

/// Formats a duration in human-readable form (e.g., "1h 30m").
pub fn format_duration(total_secs: u64) -> (r: String)
    ensures
        r@ == duration_chars(total_secs as int),
{
    let h: u64 = total_secs / 3600;
    let m: u64 = (total_secs % 3600) / 60;
    let s: u64 = total_secs % 60;
    let mut out: Vec<char> = Vec::new();
    if h > 0 {
        push_decimal(&mut out, h);
        if m > 0 {
            push_str_chars(&mut out, "h ");
            push_decimal(&mut out, m);
            push_str_chars(&mut out, "m");
        } else {
            push_str_chars(&mut out, "h");
        }
    } else if m > 0 {
        if s > 0 && m < 10 {
            push_decimal(&mut out, m);
            push_str_chars(&mut out, "m ");
            push_decimal(&mut out, s);
            push_str_chars(&mut out, "s");
        } else {
            push_decimal(&mut out, m);
            push_str_chars(&mut out, "m");
        }
    } else {
        push_decimal(&mut out, s);
        push_str_chars(&mut out, "s");
    }
    proof {
        assert(out@ =~= duration_chars(total_secs as int));
    }
    chars_to_string(&out)
}

} // verus!
