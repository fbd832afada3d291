//! Streaming tick-to-OHLCV aggregation.
//!
//! Bars summarize the mid price of their ticks. A mid price is the average
//! of ask and bid; to keep it an exact integer the library carries *twice*
//! the mid, the plain sum of the scaled ask and bid prices. Quoted-volume
//! sums are floating point and are left to callers, which can rebuild them
//! from the bar boundaries this module fixes.

use vstd::prelude::*;

use crate::tick::Tick;
use crate::timeframe::Timeframe;

verus! {

/// The bar-start instant that contains `t` (milliseconds since the epoch):
/// `t` rounded down to a multiple of the timeframe's length. Days are
/// 86 400 seconds in this timescale, so flooring to a multiple also floors
/// calendar fields, down to the UTC day for daily bars. Tick data keeps the
/// instant unchanged.
pub open spec fn bar_start_spec(tf: Timeframe, t: int) -> int {
    match tf.ms_spec() {
        None => t,
        Some(m) => t - t % m,
    }
}

/// Computes the bar-start instant containing `t_ms`.
pub fn bar_start_for(tf: Timeframe, t_ms: u64) -> (r: u64)
    ensures
        r == bar_start_spec(tf, t_ms as int),
        r <= t_ms,
{
    match tf.milliseconds() {
        None => t_ms,
        Some(m) => {
            proof {
                assert(0 <= t_ms as int % (m as int) <= t_ms as int) by (nonlinear_arith)
                    requires
                        m > 0,
                        t_ms >= 0,
                ;
            }
            t_ms - t_ms % m
        },
    }
}

/// Largest doubled mid price of a non-empty tick sequence.
pub open spec fn max_mid2(s: Seq<Tick>) -> int
    decreases s.len(),
{
    if s.len() <= 1 {
        if s.len() == 1 {
            s[0].mid2()
        } else {
            0
        }
    } else {
        let m = max_mid2(s.drop_last());
        if s.last().mid2() > m {
            s.last().mid2()
        } else {
            m
        }
    }
}

/// Smallest doubled mid price of a non-empty tick sequence.
pub open spec fn min_mid2(s: Seq<Tick>) -> int
    decreases s.len(),
{
    if s.len() <= 1 {
        if s.len() == 1 {
            s[0].mid2()
        } else {
            0
        }
    } else {
        let m = min_mid2(s.drop_last());
        if s.last().mid2() < m {
            s.last().mid2()
        } else {
            m
        }
    }
}

/// Every mid of a non-empty sequence lies between its min and max.
pub proof fn lemma_mid_bounds(s: Seq<Tick>)
    requires
        s.len() > 0,
    ensures
        forall|i: int| 0 <= i < s.len() ==> min_mid2(s) <= (#[trigger] s[i]).mid2() <= max_mid2(s),
    decreases s.len(),
{
    if s.len() > 1 {
        lemma_mid_bounds(s.drop_last());
        assert forall|i: int| 0 <= i < s.len() implies min_mid2(s) <= (#[trigger] s[i]).mid2()
            <= max_mid2(s) by {
            if i < s.len() - 1 {
                assert(s.drop_last()[i] == s[i]);
            }
        }
    }
}

/// The extreme mids of a non-empty sequence stay within the range of a
/// doubled 32-bit price.
pub proof fn lemma_mid_range(s: Seq<Tick>)
    requires
        s.len() > 0,
    ensures
        0 <= min_mid2(s) <= max_mid2(s) <= 0x1_FFFF_FFFE,
    decreases s.len(),
{
    if s.len() > 1 {
        lemma_mid_range(s.drop_last());
    }
}

/// The bar summarizing a non-empty run of ticks that share one bar start.
pub open spec fn bar_of(tf: Timeframe, s: Seq<Tick>) -> Ohlcv {
    Ohlcv {
        timestamp_ms: bar_start_spec(tf, s[0].timestamp_ms as int) as u64,
        open2: s[0].mid2() as u64,
        high2: max_mid2(s) as u64,
        low2: min_mid2(s) as u64,
        close2: s.last().mid2() as u64,
        tick_count: s.len() as u64,
    }
}

/// OHLCV bar (candlestick) data over doubled mid prices.
#[derive(Clone, Copy, PartialEq, Eq, Structural, Debug)]
pub struct Ohlcv {
    /// Bar open time: milliseconds since the epoch, aligned to the
    /// timeframe.
    pub timestamp_ms: u64,
    /// Opening price: doubled mid of the first tick.
    pub open2: u64,
    /// Highest doubled mid during the period.
    pub high2: u64,
    /// Lowest doubled mid during the period.
    pub low2: u64,
    /// Closing price: doubled mid of the last tick.
    pub close2: u64,
    /// Number of ticks in the bar.
    pub tick_count: u64,
}

impl Ohlcv {
    /// Creates a new OHLCV bar.
    pub fn new(
        timestamp_ms: u64,
        open2: u64,
        high2: u64,
        low2: u64,
        close2: u64,
        tick_count: u64,
    ) -> (r: Ohlcv)
        ensures
            r == (Ohlcv { timestamp_ms, open2, high2, low2, close2, tick_count }),
    {
        Ohlcv { timestamp_ms, open2, high2, low2, close2, tick_count }
    }

    /// The price range, high minus low, in doubled scaled units.
    pub fn range2(&self) -> (r: u64)
        requires
            self.low2 <= self.high2,
        ensures
            r == self.high2 - self.low2,
    {
        self.high2 - self.low2
    }

    /// The body size, the distance from open to close, in doubled scaled
    /// units.
    pub fn body2(&self) -> (r: u64)
        ensures
            r == if self.close2 >= self.open2 {
                self.close2 - self.open2
            } else {
                self.open2 - self.close2
            },
    {
        if self.close2 >= self.open2 {
            self.close2 - self.open2
        } else {
            self.open2 - self.close2
        }
    }

    /// Returns true if this is a bullish (rising) bar.
    pub fn is_bullish(&self) -> (r: bool)
        ensures
            r == (self.close2 > self.open2),
    {
        self.close2 > self.open2
    }

    /// Returns true if this is a bearish (falling) bar.
    pub fn is_bearish(&self) -> (r: bool)
        ensures
            r == (self.close2 < self.open2),
    {
        self.close2 < self.open2
    }
}

/// Builder accumulating the still-open bar.
#[derive(Clone, Copy)]
struct OhlcvBuilder {
    timestamp_ms: u64,
    open2: u64,
    high2: u64,
    low2: u64,
    close2: u64,
    tick_count: u64,
}

/// Streaming tick aggregator.
///
/// Feeds ticks in order and emits each completed bar exactly once. Input is
/// assumed non-decreasing in bar-start order; out-of-order input across a
/// bar boundary closes the open bar early.
pub struct TickAggregator {
    timeframe: Timeframe,
    current_bar: Option<OhlcvBuilder>,
    pending: Ghost<Seq<Tick>>,
}

impl TickAggregator {
    /// The timeframe this aggregator condenses to.
    pub closed spec fn tf_spec(self) -> Timeframe {
        self.timeframe
    }

    /// The ticks of the bar that is still open.
    pub closed spec fn pending_ticks(self) -> Seq<Tick> {
        self.pending@
    }

    /// The open bar agrees with its pending ticks.
    pub closed spec fn inv(self) -> bool {
        match self.current_bar {
            None => self.pending@.len() == 0,
            Some(b) => {
                &&& self.pending@.len() > 0
                &&& b.timestamp_ms == bar_start_spec(
                    self.timeframe,
                    self.pending@[0].timestamp_ms as int,
                )
                &&& b.open2 == self.pending@[0].mid2()
                &&& b.close2 == self.pending@.last().mid2()
                &&& b.high2 == max_mid2(self.pending@)
                &&& b.low2 == min_mid2(self.pending@)
                &&& b.tick_count == self.pending@.len()
            },
        }
    }

    /// Creates a new aggregator for the given timeframe.
    pub fn new(timeframe: Timeframe) -> (r: TickAggregator)
        ensures
            r.inv(),
            r.tf_spec() == timeframe,
            r.pending_ticks() == Seq::<Tick>::empty(),
    {
        TickAggregator { timeframe, current_bar: None, pending: Ghost(Seq::empty()) }
    }

    /// Returns the timeframe being aggregated to.
    pub fn timeframe(&self) -> (r: Timeframe)
        ensures
            r == self.tf_spec(),
    {
        self.timeframe
    }

    /// Processes a tick, emitting the previous bar when the tick opens a
    /// new one.
    ///
    /// While the tick falls into the open bar the bar absorbs it and
    /// nothing is emitted; a tick of a different bar start closes the open
    /// bar, emits it, and seeds the next bar.
    pub fn process(&mut self, tick: Tick) -> (r: Option<Ohlcv>)
        requires
            old(self).inv(),
            old(self).pending_ticks().len() < u64::MAX,
        ensures
            final(self).inv(),
            final(self).tf_spec() == old(self).tf_spec(),
            old(self).pending_ticks().len() == 0 ==> r is None && final(self).pending_ticks()
                == seq![tick],
            old(self).pending_ticks().len() > 0 && bar_start_spec(
                old(self).tf_spec(),
                tick.timestamp_ms as int,
            ) == bar_start_spec(
                old(self).tf_spec(),
                old(self).pending_ticks()[0].timestamp_ms as int,
            ) ==> r is None && final(self).pending_ticks() == old(self).pending_ticks().push(
                tick,
            ),
            old(self).pending_ticks().len() > 0 && bar_start_spec(
                old(self).tf_spec(),
                tick.timestamp_ms as int,
            ) != bar_start_spec(
                old(self).tf_spec(),
                old(self).pending_ticks()[0].timestamp_ms as int,
            ) ==> r == Some(bar_of(old(self).tf_spec(), old(self).pending_ticks()))
                && final(self).pending_ticks() == seq![tick],
    {
        let bar_start = bar_start_for(self.timeframe, tick.timestamp_ms);
        let mid2 = tick.mid_times_two();
        let seeded = OhlcvBuilder {
            timestamp_ms: bar_start,
            open2: mid2,
            high2: mid2,
            low2: mid2,
            close2: mid2,
            tick_count: 1,
        };
        match self.current_bar {
            None => {
                self.current_bar = Some(seeded);
                let ghost fresh: Seq<Tick> = seq![tick];
                self.pending = Ghost(fresh);
                None
            },
            Some(b) => {
                if b.timestamp_ms == bar_start {
                    proof {
                        assert(self.pending@.push(tick).drop_last() =~= self.pending@);
                        assert(self.pending@.push(tick).last() == tick);
                        assert(self.pending@.push(tick)[0] == self.pending@[0]);
                    }
                    let updated = OhlcvBuilder {
                        timestamp_ms: b.timestamp_ms,
                        open2: b.open2,
                        high2: if mid2 > b.high2 {
                            mid2
                        } else {
                            b.high2
                        },
                        low2: if mid2 < b.low2 {
                            mid2
                        } else {
                            b.low2
                        },
                        close2: mid2,
                        tick_count: b.tick_count + 1,
                    };
                    self.current_bar = Some(updated);
                    let ghost grown: Seq<Tick> = self.pending@.push(tick);
                    self.pending = Ghost(grown);
                    None
                } else {
                    let completed = Ohlcv {
                        timestamp_ms: b.timestamp_ms,
                        open2: b.open2,
                        high2: b.high2,
                        low2: b.low2,
                        close2: b.close2,
                        tick_count: b.tick_count,
                    };
                    self.current_bar = Some(seeded);
                    let ghost fresh: Seq<Tick> = seq![tick];
                    self.pending = Ghost(fresh);
                    Some(completed)
                }
            },
        }
    }

    /// Finishes aggregation, returning the final partial bar if one is
    /// open.
    pub fn finish(self) -> (r: Option<Ohlcv>)
        requires
            self.inv(),
        ensures
            self.pending_ticks().len() == 0 ==> r is None,
            self.pending_ticks().len() > 0 ==> r == Some(
                bar_of(self.tf_spec(), self.pending_ticks()),
            ),
    {
        match self.current_bar {
            None => None,
            Some(b) => Some(
                Ohlcv {
                    timestamp_ms: b.timestamp_ms,
                    open2: b.open2,
                    high2: b.high2,
                    low2: b.low2,
                    close2: b.close2,
                    tick_count: b.tick_count,
                },
            ),
        }
    }
}

/// Splits a tick sequence into the runs the aggregator forms: a tick joins
/// the last run when it shares that run's bar start, else it opens a new
/// run.
pub open spec fn group_runs(tf: Timeframe, s: Seq<Tick>) -> Seq<Seq<Tick>>
    decreases s.len(),
{
    if s.len() == 0 {
        Seq::empty()
    } else {
        let rest = group_runs(tf, s.drop_last());
        if rest.len() > 0 && bar_start_spec(tf, s.last().timestamp_ms as int) == bar_start_spec(
            tf,
            rest.last()[0].timestamp_ms as int,
        ) {
            rest.update(rest.len() - 1, rest.last().push(s.last()))
        } else {
            rest.push(seq![s.last()])
        }
    }
}

/// The concatenation of a sequence of runs.
pub open spec fn concat_runs(rs: Seq<Seq<Tick>>) -> Seq<Tick>
    decreases rs.len(),
{
    if rs.len() == 0 {
        Seq::empty()
    } else {
        concat_runs(rs.drop_last()) + rs.last()
    }
}

/// The runs of a sequence are non-empty, concatenate back to the sequence
/// (so every tick lands in exactly one run), and each run shares a single
/// bar start.
pub proof fn lemma_group_runs_partition(tf: Timeframe, s: Seq<Tick>)
    ensures
        concat_runs(group_runs(tf, s)) == s,
        forall|i: int| 0 <= i < group_runs(tf, s).len() ==> (#[trigger] group_runs(tf, s)[i]).len()
            > 0,
        forall|i: int, j: int|
            0 <= i < group_runs(tf, s).len() && 0 <= j < group_runs(tf, s)[i].len()
                ==> bar_start_spec(tf, (#[trigger] group_runs(tf, s)[i][j]).timestamp_ms as int)
                == bar_start_spec(tf, group_runs(tf, s)[i][0].timestamp_ms as int),
        s.len() > 0 ==> group_runs(tf, s).len() > 0 && group_runs(tf, s).last().last() == s.last(),
    decreases s.len(),
{
    if s.len() > 0 {
        let x = s.last();
        let g0 = group_runs(tf, s.drop_last());
        let g = group_runs(tf, s);
        lemma_group_runs_partition(tf, s.drop_last());
        if g0.len() > 0 && bar_start_spec(tf, x.timestamp_ms as int) == bar_start_spec(
            tf,
            g0.last()[0].timestamp_ms as int,
        ) {
            assert(g == g0.update(g0.len() - 1, g0.last().push(x)));
            assert(g.drop_last() =~= g0.drop_last());
            assert(g.last() == g0.last().push(x));
            assert(concat_runs(g) == concat_runs(g0.drop_last()) + g0.last().push(x));
            assert(concat_runs(g0.drop_last()) + g0.last().push(x) =~= (concat_runs(g0.drop_last())
                + g0.last()).push(x));
            assert(concat_runs(g) =~= s);
            assert forall|i: int, j: int|
                0 <= i < g.len() && 0 <= j < g[i].len() implies bar_start_spec(
                tf,
                (#[trigger] g[i][j]).timestamp_ms as int,
            ) == bar_start_spec(tf, g[i][0].timestamp_ms as int) by {
                if i < g.len() - 1 {
                    assert(g[i] == g0[i]);
                } else {
                    assert(g[i] == g0.last().push(x));
                    assert(g[i][0] == g0.last()[0]);
                    if j < g[i].len() - 1 {
                        assert(g[i][j] == g0.last()[j]);
                    } else {
                        assert(g[i][j] == x);
                    }
                }
            }
        } else {
            assert(g == g0.push(seq![x]));
            assert(g.drop_last() =~= g0);
            assert(concat_runs(g) == concat_runs(g0) + seq![x]);
            assert(concat_runs(g0) + seq![x] =~= s);
            assert forall|i: int, j: int|
                0 <= i < g.len() && 0 <= j < g[i].len() implies bar_start_spec(
                tf,
                (#[trigger] g[i][j]).timestamp_ms as int,
            ) == bar_start_spec(tf, g[i][0].timestamp_ms as int) by {
                if i < g.len() - 1 {
                    assert(g[i] == g0[i]);
                } else {
                    assert(g[i] == seq![x]);
                }
            }
        }
    }
}

/// Sum of the lengths of a sequence of runs.
pub open spec fn sum_run_lens(rs: Seq<Seq<Tick>>) -> int
    decreases rs.len(),
{
    if rs.len() == 0 {
        0
    } else {
        sum_run_lens(rs.drop_last()) + rs.last().len()
    }
}

/// Sum of the tick counts of a sequence of bars.
pub open spec fn total_tick_count(bars: Seq<Ohlcv>) -> int
    decreases bars.len(),
{
    if bars.len() == 0 {
        0
    } else {
        total_tick_count(bars.drop_last()) + bars.last().tick_count
    }
}

/// Concatenating runs yields as many ticks as the runs hold together.
pub proof fn lemma_concat_runs_len(rs: Seq<Seq<Tick>>)
    ensures
        concat_runs(rs).len() == sum_run_lens(rs),
    decreases rs.len(),
{
    if rs.len() > 0 {
        lemma_concat_runs_len(rs.drop_last());
    }
}

/// Bars that summarize runs count as many ticks as the runs hold.
pub proof fn lemma_total_tick_count(tf: Timeframe, rs: Seq<Seq<Tick>>, bars: Seq<Ohlcv>)
    requires
        bars.len() == rs.len(),
        forall|i: int| 0 <= i < rs.len() ==> (#[trigger] rs[i]).len() > 0,
        forall|i: int|
            0 <= i < bars.len() ==> (#[trigger] bars[i]) == bar_of(tf, rs[i]) && rs[i].len()
                <= u64::MAX,
    ensures
        total_tick_count(bars) == sum_run_lens(rs),
    decreases rs.len(),
{
    if rs.len() > 0 {
        assert(forall|i: int| 0 <= i < rs.len() - 1 ==> rs.drop_last()[i] == rs[i]);
        assert(forall|i: int| 0 <= i < bars.len() - 1 ==> bars.drop_last()[i] == bars[i]);
        lemma_total_tick_count(tf, rs.drop_last(), bars.drop_last());
        assert(bars.last() == bar_of(tf, rs.last()));
    }
}

/// The bar start of an instant is an earlier (or equal) instant, and for a
/// real timeframe it sits on a multiple of the bar length.
pub proof fn lemma_bar_start_bounds(tf: Timeframe, t: int)
    requires
        t >= 0,
    ensures
        0 <= bar_start_spec(tf, t) <= t,
        tf.ms_spec() matches Some(m) ==> bar_start_spec(tf, t) % m == 0,
{
    match tf.ms_spec() {
        None => {
        },
        Some(m) => {
            assert(0 <= t - t % m <= t && (t - t % m) % m == 0) by (nonlinear_arith)
                requires
                    t >= 0,
                    m > 0,
            ;
        },
    }
}

/// With input sorted by bar start, the runs' bar starts strictly ascend.
pub proof fn lemma_group_runs_sorted(tf: Timeframe, s: Seq<Tick>)
    requires
        forall|i: int|
            0 <= i < s.len() - 1 ==> bar_start_spec(tf, (#[trigger] s[i]).timestamp_ms as int)
                <= bar_start_spec(tf, s[i + 1].timestamp_ms as int),
    ensures
        forall|i: int|
            0 <= i < group_runs(tf, s).len() - 1 ==> bar_start_spec(
                tf,
                (#[trigger] group_runs(tf, s)[i])[0].timestamp_ms as int,
            ) < bar_start_spec(tf, group_runs(tf, s)[i + 1][0].timestamp_ms as int),
    decreases s.len(),
{
    if s.len() > 0 {
        let x = s.last();
        let prev = s.drop_last();
        let g0 = group_runs(tf, prev);
        let g = group_runs(tf, s);
        assert(forall|i: int| 0 <= i < prev.len() ==> prev[i] == s[i]);
        lemma_group_runs_sorted(tf, prev);
        lemma_group_runs_partition(tf, prev);
        if g0.len() > 0 && bar_start_spec(tf, x.timestamp_ms as int) == bar_start_spec(
            tf,
            g0.last()[0].timestamp_ms as int,
        ) {
            assert(g == g0.update(g0.len() - 1, g0.last().push(x)));
            assert forall|i: int| 0 <= i < g.len() - 1 implies bar_start_spec(
                tf,
                (#[trigger] g[i])[0].timestamp_ms as int,
            ) < bar_start_spec(tf, g[i + 1][0].timestamp_ms as int) by {
                assert(g[i] == g0[i]);
                assert(g[i + 1][0] == g0[i + 1][0]);
            }
        } else {
            assert(g == g0.push(seq![x]));
            if g0.len() > 0 {
                let prev_last = prev.last();
                assert(prev_last == g0.last().last());
                assert(bar_start_spec(tf, prev_last.timestamp_ms as int) == bar_start_spec(
                    tf,
                    g0.last()[0].timestamp_ms as int,
                ));
                assert(prev_last == s[s.len() - 2] && x == s[s.len() - 1]);
                assert(bar_start_spec(tf, prev_last.timestamp_ms as int) <= bar_start_spec(
                    tf,
                    x.timestamp_ms as int,
                ));
            }
            assert forall|i: int| 0 <= i < g.len() - 1 implies bar_start_spec(
                tf,
                (#[trigger] g[i])[0].timestamp_ms as int,
            ) < bar_start_spec(tf, g[i + 1][0].timestamp_ms as int) by {
                if i < g.len() - 2 {
                    assert(g[i] == g0[i]);
                    assert(g[i + 1] == g0[i + 1]);
                } else {
                    assert(g[i] == g0[i]);
                    assert(g[i + 1] == seq![x]);
                }
            }
        }
    }
}

/// The aggregation law. For a tick sequence sorted by bar start and the
/// bars that `aggregate_ticks` returns for it: every tick lands in exactly
/// one bar, so the bars' tick counts sum to the sequence's length; each
/// bar's low and high are the least and greatest doubled mid of its ticks,
/// so low <= open, close <= high; bar timestamps strictly ascend; and for a
/// real timeframe every bar timestamp is a multiple of the bar length.
pub proof fn lemma_aggregation_law(tf: Timeframe, s: Seq<Tick>, bars: Seq<Ohlcv>)
    requires
        s.len() < u64::MAX,
        bars.len() == group_runs(tf, s).len(),
        forall|i: int|
            0 <= i < bars.len() ==> (#[trigger] bars[i]) == bar_of(tf, group_runs(tf, s)[i]),
        forall|i: int|
            0 <= i < s.len() - 1 ==> bar_start_spec(tf, (#[trigger] s[i]).timestamp_ms as int)
                <= bar_start_spec(tf, s[i + 1].timestamp_ms as int),
    ensures
        total_tick_count(bars) == s.len(),
        forall|i: int|
            0 <= i < bars.len() ==> (#[trigger] bars[i]).low2 <= bars[i].open2 <= bars[i].high2
                && bars[i].low2 <= bars[i].close2 <= bars[i].high2,
        forall|i: int|
            0 <= i < bars.len() - 1 ==> (#[trigger] bars[i]).timestamp_ms < bars[i
                + 1].timestamp_ms,
        tf.ms_spec() matches Some(m) ==> forall|i: int|
            0 <= i < bars.len() ==> (#[trigger] bars[i]).timestamp_ms as int % m == 0,
{
    let g = group_runs(tf, s);
    lemma_group_runs_partition(tf, s);
    lemma_concat_runs_len(g);
    assert forall|i: int| 0 <= i < g.len() implies (#[trigger] g[i]).len() <= u64::MAX by {
        lemma_run_within_concat(g, i);
    }
    lemma_total_tick_count(tf, g, bars);
    assert forall|i: int| 0 <= i < bars.len() implies (#[trigger] bars[i]).low2 <= bars[i].open2
        <= bars[i].high2 && bars[i].low2 <= bars[i].close2 <= bars[i].high2 by {
        lemma_mid_bounds(g[i]);
        lemma_mid_range(g[i]);
        assert(min_mid2(g[i]) <= g[i][0].mid2() <= max_mid2(g[i]));
        assert(min_mid2(g[i]) <= g[i].last().mid2() <= max_mid2(g[i]));
    }
    lemma_group_runs_sorted(tf, s);
    assert forall|i: int| 0 <= i < bars.len() - 1 implies (#[trigger] bars[i]).timestamp_ms
        < bars[i + 1].timestamp_ms by {
        lemma_bar_start_bounds(tf, g[i][0].timestamp_ms as int);
        lemma_bar_start_bounds(tf, g[i + 1][0].timestamp_ms as int);
    }
    if tf.ms_spec() is Some {
        assert forall|i: int| 0 <= i < bars.len() implies (#[trigger] bars[i]).timestamp_ms as int
            % tf.ms_spec()->Some_0 == 0 by {
            lemma_bar_start_bounds(tf, g[i][0].timestamp_ms as int);
        }
    }
}

/// A run of a partition is no longer than the whole concatenation.
pub proof fn lemma_run_within_concat(rs: Seq<Seq<Tick>>, i: int)
    requires
        0 <= i < rs.len(),
    ensures
        rs[i].len() <= concat_runs(rs).len(),
    decreases rs.len(),
{
    lemma_concat_runs_len(rs);
    lemma_sum_run_lens_part(rs, i);
}

/// Each summand of the run-length sum is bounded by the sum.
pub proof fn lemma_sum_run_lens_part(rs: Seq<Seq<Tick>>, i: int)
    requires
        0 <= i < rs.len(),
    ensures
        rs[i].len() <= sum_run_lens(rs),
    decreases rs.len(),
{
    if i < rs.len() - 1 {
        assert(rs.drop_last()[i] == rs[i]);
        lemma_sum_run_lens_part(rs.drop_last(), i);
        lemma_sum_run_lens_nonneg(rs.drop_last());
    } else {
        lemma_sum_run_lens_nonneg(rs.drop_last());
    }
}

/// Run lengths sum to a non-negative total.
pub proof fn lemma_sum_run_lens_nonneg(rs: Seq<Seq<Tick>>)
    ensures
        sum_run_lens(rs) >= 0,
    decreases rs.len(),
{
    if rs.len() > 0 {
        lemma_sum_run_lens_nonneg(rs.drop_last());
    }
}

/// Aggregates a tick sequence into completed bars, the final partial bar
/// included: one bar per run of equal bar starts.
pub fn aggregate_ticks(ticks: &Vec<Tick>, timeframe: Timeframe) -> (bars: Vec<Ohlcv>)
    requires
        ticks@.len() < u64::MAX,
    ensures
        bars@.len() == group_runs(timeframe, ticks@).len(),
        forall|i: int|
            0 <= i < bars@.len() ==> (#[trigger] bars@[i]) == bar_of(
                timeframe,
                group_runs(timeframe, ticks@)[i],
            ),
{
    let mut agg = TickAggregator::new(timeframe);
    let mut bars: Vec<Ohlcv> = Vec::new();
    let mut k: usize = 0;
    while k < ticks.len()
        invariant
            ticks@.len() < u64::MAX,
            k <= ticks@.len(),
            agg.inv(),
            agg.tf_spec() == timeframe,
            ({
                let g = group_runs(timeframe, ticks@.take(k as int));
                &&& (g.len() == 0 ==> bars@.len() == 0 && agg.pending_ticks().len() == 0)
                &&& (g.len() > 0 ==> bars@.len() == g.len() - 1 && agg.pending_ticks() == g.last())
                &&& forall|i: int| 0 <= i < bars@.len() ==> (#[trigger] bars@[i]) == bar_of(
                    timeframe,
                    g[i],
                )
            }),
        decreases ticks@.len() - k,
    {
        let tick = ticks[k];
        proof {
            let taken = ticks@.take(k as int);
            let taken1 = ticks@.take(k + 1);
            assert(taken1.drop_last() =~= taken);
            assert(taken1.last() == ticks@[k as int]);
            lemma_group_runs_partition(timeframe, taken);
            lemma_group_runs_partition(timeframe, taken1);
        }
        let emitted = agg.process(tick);
        proof {
            let g = group_runs(timeframe, ticks@.take(k as int));
            let g1 = group_runs(timeframe, ticks@.take(k + 1));
            if g.len() > 0 {
                if bar_start_spec(timeframe, tick.timestamp_ms as int) == bar_start_spec(
                    timeframe,
                    g.last()[0].timestamp_ms as int,
                ) {
                    assert(g1 == g.update(g.len() - 1, g.last().push(tick)));
                    assert(g1.last() == g.last().push(tick));
                    assert(g1.len() == g.len());
                    assert(forall|i: int| 0 <= i < g.len() - 1 ==> g1[i] == g[i]);
                } else {
                    assert(g1 == g.push(seq![tick]));
                }
            } else {
                assert(ticks@.take(k as int).len() == 0);
                assert(g1 == g.push(seq![tick]));
            }
        }
        if let Some(bar) = emitted {
            bars.push(bar);
        }
        k = k + 1;
    }
    proof {
        assert(ticks@.take(ticks@.len() as int) =~= ticks@);
    }
    if let Some(bar) = agg.finish() {
        bars.push(bar);
    }
    bars
}

} // verus!
