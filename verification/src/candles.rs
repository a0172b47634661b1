//! Bookkeeping of one-minute trade candles: which candle a trade falls in,
//! which trades were already counted, how many buys and sells each candle
//! saw, and which candle is finished when a new one opens.
use std::collections::BTreeMap;
use vstd::std_specs::btree::{increasing_seq, spec_keys_iter};
use vstd::std_specs::iter::IteratorSpec;
use vstd::prelude::*;

verus! {

/// Length of a candle, in seconds.
pub const CANDLE_INTERVAL: i64 = 60;

/// Start of the candle that a trade at `ts` (seconds since the epoch)
/// falls in: `ts / 60 * 60` with Rust's division, which rounds toward zero.
pub open spec fn candle_start(ts: int) -> int {
    if ts >= 0 {
        ts / 60 * 60
    } else {
        -((-ts) / 60 * 60)
    }
}

/// Every trade time lies in the candle that starts at its candle start:
/// the start is a multiple of the interval, at most one interval away from
/// the time, on the side of zero.
pub proof fn lemma_time_in_candle(ts: int)
    ensures
        candle_start(ts) % 60 == 0,
        ts >= 0 ==> candle_start(ts) <= ts < candle_start(ts) + 60,
        ts < 0 ==> candle_start(ts) - 60 < ts <= candle_start(ts),
{
    if ts >= 0 {
        assert(ts / 60 * 60 <= ts < ts / 60 * 60 + 60) by (nonlinear_arith)
            requires
                ts >= 0,
        ;
        assert((ts / 60 * 60) % 60 == 0) by (nonlinear_arith);
    } else {
        let m = -ts;
        assert(m / 60 * 60 <= m < m / 60 * 60 + 60) by (nonlinear_arith)
            requires
                m > 0,
        ;
        assert((-(m / 60 * 60)) % 60 == 0) by (nonlinear_arith);
    }
}

/// Start of the candle that a trade at `ts` falls in.
pub fn candle_start_of(ts: i64) -> (s: i64)
    ensures
        s == candle_start(ts as int),
{
    if ts >= 0 {
        let u: u64 = ts as u64;
        let b: u64 = u / 60 * 60;
        assert(b <= u) by (nonlinear_arith)
            requires
                b == u / 60 * 60,
        ;
        b as i64
    } else {
        let u: u64 = (-(ts + 1)) as u64 + 1;
        let b: u64 = u / 60 * 60;
        assert(b <= u) by (nonlinear_arith)
            requires
                b == u / 60 * 60,
        ;
        -(b as i64)
    }
}

/// The tally of one candle: its start, the trades counted in it and how
/// many of them were buys and sells.
pub struct CandleTally {
    pub start: i64,
    pub buy_count: usize,
    pub sell_count: usize,
    pub trades: Vec<usize>,
}

impl CandleTally {
    /// Every trade is counted once, as a buy or as a sell.
    pub open spec fn wf(&self) -> bool {
        &&& self.buy_count + self.sell_count == self.trades@.len()
        &&& self.trades@.no_duplicates()
    }

    /// An empty candle starting at `start`.
    pub fn new(start: i64) -> (c: CandleTally)
        ensures
            c.start == start,
            c.buy_count == 0,
            c.sell_count == 0,
            c.trades@ == Seq::<usize>::empty(),
            c.wf(),
    {
        CandleTally { start, buy_count: 0, sell_count: 0, trades: Vec::new() }
    }

    /// Whether the trade was already counted in this candle.
    pub fn has_trade(&self, trade_id: usize) -> (r: bool)
        ensures
            r == self.trades@.contains(trade_id),
    {
        let mut i: usize = 0;
        while i < self.trades.len()
            invariant
                i <= self.trades@.len(),
                forall|j: int| 0 <= j < i ==> self.trades@[j] != trade_id,
            decreases self.trades.len() - i,
        {
            if self.trades[i] == trade_id {
                return true;
            }
            i = i + 1;
        }
        false
    }
}

/// The candle `c` after counting a new trade.
pub open spec fn counted(c: CandleTally, trade_id: usize, is_buy: bool) -> (
    int,
    int,
    Seq<usize>,
) {
    if is_buy {
        (c.buy_count + 1, c.sell_count as int, c.trades@.push(trade_id))
    } else {
        (c.buy_count as int, c.sell_count + 1, c.trades@.push(trade_id))
    }
}

/// What happened to a trade that was offered to the book.
pub enum TradeOutcome {
    /// The trade was already counted in its candle; nothing changed.
    Duplicate,
    /// The trade was counted in the candle starting at `start`; `opened`
    /// says whether that candle is new, and `finished` names the candle
    /// that the new one closes, if any.
    Recorded { start: i64, opened: bool, finished: Option<i64> },
}

/// Whether `k` is the second largest key of `d`: in `d`, with exactly one
/// key of `d` above it.
pub open spec fn second_largest(d: Set<i64>, k: i64) -> bool {
    &&& d.contains(k)
    &&& exists|m: i64| #![trigger d.contains(m)] d.contains(m) && k < m
    &&& forall|x: i64, y: i64| d.contains(x) && d.contains(y) && k < x && k < y ==> x == y
}

/// The candles seen so far, by start time.
pub struct CandleBook {
    pub candles: BTreeMap<i64, CandleTally>,
}

impl CandleBook {
    /// Each candle is filed under its own start and is well formed.
    pub open spec fn wf(&self) -> bool {
        forall|k: i64|
            #[trigger] self.candles@.contains_key(k) ==> self.candles@[k].start == k
                && self.candles@[k].wf()
    }

    /// A book with no candles.
    pub fn new() -> (b: CandleBook)
        ensures
            b.wf(),
            b.candles@ == Map::<i64, CandleTally>::empty(),
    {
        CandleBook { candles: BTreeMap::new() }
    }

    /// The tally of the candle starting at `start`, if the book has one.
    pub fn tally(&self, start: i64) -> (c: Option<&CandleTally>)
        ensures
            c == (if self.candles@.contains_key(start) {
                Some(&self.candles@[start])
            } else {
                None
            }),
    {
        self.candles.get(&start)
    }

    /// The number of candles in the book.
    pub fn len(&self) -> (n: usize)
        ensures
            n == self.candles@.len(),
    {
        self.candles.len()
    }

    /// The tally of the candle starting at `start` before a trade is
    /// counted in it: the book's own, or an empty one if the book has none.
    pub open spec fn tally_before(&self, start: i64) -> (int, int, Seq<usize>) {
        if self.candles@.contains_key(start) {
            let c = self.candles@[start];
            (c.buy_count as int, c.sell_count as int, c.trades@)
        } else {
            (0, 0, Seq::empty())
        }
    }

    /// Offers a trade at time `time` (seconds since the epoch) to the book.
    /// A trade whose id was already counted in its candle changes nothing.
    /// Otherwise it is counted in its candle, which is opened if new; when
    /// a new candle opens beside earlier ones, the candle with the second
    /// largest start is reported as finished.
    pub fn record_trade(&mut self, time: i64, trade_id: usize, is_buy: bool) -> (r: TradeOutcome)
        requires
            old(self).wf(),
        ensures
            final(self).wf(),
            ({
                let start = candle_start(time as int) as i64;
                let before = old(self).tally_before(start);
                let dup = before.2.contains(trade_id);
                &&& dup ==> r is Duplicate && final(self).candles@ == old(self).candles@
                &&& !dup ==> {
                    let opened = !old(self).candles@.contains_key(start);
                    &&& final(self).candles@.dom() == old(self).candles@.dom().insert(start)
                    &&& final(self).candles@.remove(start) == old(self).candles@.remove(start)
                    &&& final(self).candles@[start].start == start
                    &&& final(self).candles@[start].buy_count == (if is_buy { before.0 + 1 } else { before.0 })
                    &&& final(self).candles@[start].sell_count == (if is_buy { before.1 } else { before.1 + 1 })
                    &&& final(self).candles@[start].trades@ == before.2.push(trade_id)
                    &&& r matches TradeOutcome::Recorded { start: s, opened: o, finished: f }
                    &&& s == start
                    &&& o == opened
                    &&& (opened && old(self).candles@.len() > 0) ==> (f matches Some(k)
                        && second_largest(final(self).candles@.dom(), k))
                    &&& !(opened && old(self).candles@.len() > 0) ==> f is None
                }
            }),
    {
        let start = candle_start_of(time);
        let had = self.candles.len();
        let existing = self.candles.remove(&start);
        let opened = existing.is_none();
        let mut tally = match existing {
            Some(t) => t,
            None => CandleTally::new(start),
        };
        if tally.has_trade(trade_id) {
            self.candles.insert(start, tally);
            proof {
                assert(self.candles@ =~= old(self).candles@);
            }
            return TradeOutcome::Duplicate;
        }
        tally.trades.push(trade_id);
        let n = tally.trades.len();
        proof {
            assert(tally.trades@.drop_last() == old(self).tally_before(start).2);
            assert(tally.trades@.no_duplicates()) by {
                let t = tally.trades@;
                assert forall|i: int, j: int| 0 <= i < t.len() && 0 <= j < t.len() && i != j implies t[i]
                    != t[j] by {
                    if i == t.len() - 1 {
                        assert(t.drop_last()[j] == t[j]);
                    } else if j == t.len() - 1 {
                        assert(t.drop_last()[i] == t[i]);
                    } else {
                        assert(t.drop_last()[i] == t[i]);
                        assert(t.drop_last()[j] == t[j]);
                    }
                }
            }
        }
        if is_buy {
            tally.buy_count = tally.buy_count + 1;
        } else {
            tally.sell_count = tally.sell_count + 1;
        }
        self.candles.insert(start, tally);
        proof {
            assert(self.candles@.dom() =~= old(self).candles@.dom().insert(start));
            assert(self.candles@.remove(start) =~= old(self).candles@.remove(start));
        }
        let finished = if opened && had > 0 {
            Some(self.second_latest())
        } else {
            None
        };
        TradeOutcome::Recorded { start, opened, finished }
    }

    /// The second largest start in the book, where the book holds at
    /// least two candles.
    fn second_latest(&self) -> (k: i64)
        requires
            self.candles@.len() >= 2,
        ensures
            second_largest(self.candles@.dom(), k),
    {
        let ghost keys = IteratorSpec::remaining(&spec_keys_iter(&self.candles));
        proof {
            lemma_keys_ascending(keys);
        }
        let mut last: i64 = 0;
        let mut prev: i64 = 0;
        for key in it: self.candles.keys()
            invariant
                it.seq() == keys,
                keys.unref().to_set() == self.candles@.dom(),
                keys.no_duplicates(),
                forall|i: int, j: int| 0 <= i < j < keys.len() ==> *keys[i] < *keys[j],
                it.index() >= 1 ==> last == *keys[it.index() - 1],
                it.index() >= 2 ==> prev == *keys[it.index() - 2],
        {
            prev = last;
            last = *key;
        }
        proof {
            let ks = keys.unref();
            let n = ks.len();
            assert(ks.no_duplicates());
            ks.unique_seq_to_set();
            assert(n >= 2);
            assert(ks[n - 2] == prev);
            assert(ks.contains(ks[n - 1]));
            assert(self.candles@.dom().contains(ks[n - 1]));
            assert(ks.contains(prev));
            assert forall|x: i64, y: i64|
                self.candles@.dom().contains(x) && self.candles@.dom().contains(y) && prev < x && prev
                    < y implies x == y by {
                assert(ks.contains(x));
                assert(ks.contains(y));
                let ix = choose|i: int| 0 <= i < n && ks[i] == x;
                let iy = choose|i: int| 0 <= i < n && ks[i] == y;
                assert(ix == n - 1);
                assert(iy == n - 1);
            }
        }
        prev
    }
}

/// The keys of a map of `i64` come out in strictly ascending order.
proof fn lemma_keys_ascending(s: Seq<&i64>)
    requires
        increasing_seq(s),
    ensures
        forall|i: int, j: int| 0 <= i < j < s.len() ==> *s[i] < *s[j],
{
    broadcast use vstd::std_specs::btree::axiom_increasing_seq_meaning;

    assert(vstd::laws_cmp::obeys_cmp::<i64>());
    assert(vstd::laws_cmp::obeys_cmp::<&i64>());

    assert forall|i: int, j: int| 0 <= i < j < s.len() implies *s[i] < *s[j] by {
        assert(vstd::std_specs::cmp::OrdSpec::cmp_spec(&s[i], &s[j]) is Less);
    }
}

} // verus!
