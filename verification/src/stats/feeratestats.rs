//! Fee and feerate statistics of a block.
//!
//! The coinbase transaction is skipped throughout.  Feerate bands are the
//! half-open intervals of satoshi per vbyte the fields name; every
//! non-coinbase transaction lands in the sub-1 class or exactly one band,
//! with a zero virtual size landing in the top band.  The percentile and
//! average columns of the persisted schema are floating-point derivations
//! of the same samples and live with the store front end, not here.

use vstd::prelude::*;

use crate::caldate::DateYmd;
use crate::model::{Block, TxData, tx_fee_or_zero};

verus! {

/// Integer fee, size, and feerate-band statistics over a block.
#[derive(Clone, Copy, Debug, PartialEq)]
pub struct FeerateStats {
    pub height: i64,
    pub date: DateYmd,

    pub fee_min: i64,
    pub fee_max: i64,
    pub fee_sum: i64,
    pub size_min: i32,
    pub size_max: i32,
    pub size_sum: i64,

    pub zero_fee_tx: i32,
    pub below_1_sat_vbyte: i32,
    pub feerate_1_2_sat_vbyte: i32,
    pub feerate_2_5_sat_vbyte: i32,
    pub feerate_5_10_sat_vbyte: i32,
    pub feerate_10_25_sat_vbyte: i32,
    pub feerate_25_50_sat_vbyte: i32,
    pub feerate_50_100_sat_vbyte: i32,
    pub feerate_100_250_sat_vbyte: i32,
    pub feerate_250_500_sat_vbyte: i32,
    pub feerate_500_1000_sat_vbyte: i32,
    pub feerate_1000_plus_sat_vbyte: i32,
}

/// The transaction's feerate lies in [lo, hi) satoshi per vbyte.
pub open spec fn in_band(x: TxData, lo: int, hi: int) -> bool {
    x.vsize > 0 && lo * x.vsize <= tx_fee_or_zero(x) && tx_fee_or_zero(x) < hi * x.vsize
}

/// The transaction's feerate is below one satoshi per vbyte.
pub open spec fn below_one(x: TxData) -> bool {
    x.vsize > 0 && tx_fee_or_zero(x) < x.vsize
}

/// The transaction's feerate is at least 1000 satoshi per vbyte, or its
/// virtual size is zero.
pub open spec fn band_top(x: TxData) -> bool {
    x.vsize == 0 || tx_fee_or_zero(x) >= 1000 * x.vsize
}

/// Number of non-coinbase transactions among the first `t` that satisfy
/// the predicate.
pub open spec fn nccount(xs: Seq<TxData>, t: int, f: spec_fn(TxData) -> bool) -> int
    decreases t,
{
    if t <= 1 {
        0
    } else {
        nccount(xs, t - 1, f) + if t - 1 < xs.len() && f(xs[t - 1]) {
            1int
        } else {
            0int
        }
    }
}

/// Fee sum over the non-coinbase transactions among the first `t`.
pub open spec fn fee_sum_upto(xs: Seq<TxData>, t: int) -> int
    decreases t,
{
    if t <= 1 {
        0
    } else {
        fee_sum_upto(xs, t - 1) + if t - 1 < xs.len() {
            tx_fee_or_zero(xs[t - 1])
        } else {
            0int
        }
    }
}

/// Size sum over the non-coinbase transactions among the first `t`.
pub open spec fn size_sum_upto(xs: Seq<TxData>, t: int) -> int
    decreases t,
{
    if t <= 1 {
        0
    } else {
        size_sum_upto(xs, t - 1) + if t - 1 < xs.len() {
            xs[t - 1].size as int
        } else {
            0int
        }
    }
}

/// Minimum fee over the non-coinbase transactions among the first `t`;
/// absent when there are none.
pub open spec fn fee_min_upto(xs: Seq<TxData>, t: int) -> Option<int>
    decreases t,
{
    if t <= 1 || xs.len() <= 1 {
        None
    } else {
        let fee = tx_fee_or_zero(xs[t - 1]);
        if t - 1 >= xs.len() {
            fee_min_upto(xs, t - 1)
        } else {
            match fee_min_upto(xs, t - 1) {
                None => Some(fee),
                Some(m) => Some(
                    if fee < m {
                        fee
                    } else {
                        m
                    },
                ),
            }
        }
    }
}

/// Maximum fee over the non-coinbase transactions among the first `t`.
pub open spec fn fee_max_upto(xs: Seq<TxData>, t: int) -> Option<int>
    decreases t,
{
    if t <= 1 || xs.len() <= 1 {
        None
    } else {
        let fee = tx_fee_or_zero(xs[t - 1]);
        if t - 1 >= xs.len() {
            fee_max_upto(xs, t - 1)
        } else {
            match fee_max_upto(xs, t - 1) {
                None => Some(fee),
                Some(m) => Some(
                    if fee > m {
                        fee
                    } else {
                        m
                    },
                ),
            }
        }
    }
}

/// Minimum size over the non-coinbase transactions among the first `t`.
pub open spec fn size_min_upto(xs: Seq<TxData>, t: int) -> Option<int>
    decreases t,
{
    if t <= 1 || xs.len() <= 1 {
        None
    } else {
        let sz = xs[t - 1].size as int;
        if t - 1 >= xs.len() {
            size_min_upto(xs, t - 1)
        } else {
            match size_min_upto(xs, t - 1) {
                None => Some(sz),
                Some(m) => Some(
                    if sz < m {
                        sz
                    } else {
                        m
                    },
                ),
            }
        }
    }
}

/// Maximum size over the non-coinbase transactions among the first `t`.
pub open spec fn size_max_upto(xs: Seq<TxData>, t: int) -> Option<int>
    decreases t,
{
    if t <= 1 || xs.len() <= 1 {
        None
    } else {
        let sz = xs[t - 1].size as int;
        if t - 1 >= xs.len() {
            size_max_upto(xs, t - 1)
        } else {
            match size_max_upto(xs, t - 1) {
                None => Some(sz),
                Some(m) => Some(
                    if sz > m {
                        sz
                    } else {
                        m
                    },
                ),
            }
        }
    }
}

/// Predicates counted by the record's fields.
pub open spec fn r_zero_fee() -> spec_fn(TxData) -> bool {
    |x: TxData| x.fee == Some(0u64)
}

pub open spec fn r_below_one() -> spec_fn(TxData) -> bool {
    |x: TxData| below_one(x)
}

pub open spec fn r_band(lo: int, hi: int) -> spec_fn(TxData) -> bool {
    |x: TxData| in_band(x, lo, hi)
}

pub open spec fn r_band_top() -> spec_fn(TxData) -> bool {
    |x: TxData| band_top(x)
}

/// Counter bounds.
pub proof fn lemma_nccount_le(xs: Seq<TxData>, t: int)
    requires
        t >= 0,
    ensures
        forall|f: spec_fn(TxData) -> bool| 0 <= #[trigger] nccount(xs, t, f) <= t,
    decreases t,
{
    if t > 1 {
        lemma_nccount_le(xs, t - 1);
        assert forall|f: spec_fn(TxData) -> bool| 0 <= #[trigger] nccount(xs, t, f) <= t by {
            assert(0 <= nccount(xs, t - 1, f) <= t - 1);
        }
    } else {
        assert forall|f: spec_fn(TxData) -> bool| 0 <= #[trigger] nccount(xs, t, f) <= t by {}
    }
}

/// The fee prefix sums stay within the block's fee total.
pub proof fn lemma_fee_sum_le(xs: Seq<TxData>, t: int)
    requires
        0 <= t <= xs.len(),
    ensures
        0 <= fee_sum_upto(xs, t) <= crate::model::total_fees(xs),
    decreases xs.len(),
{
    lemma_fee_sum_eq(xs, t);
    lemma_fee_sum_eq(xs, xs.len() as int);
    assert(xs.take(xs.len() as int) =~= xs);
    lemma_fees_take_mono(xs, t);
}

proof fn lemma_fee_sum_eq(xs: Seq<TxData>, t: int)
    requires
        0 <= t <= xs.len(),
    ensures
        fee_sum_upto(xs, t) <= crate::model::total_fees(xs.take(t)),
        fee_sum_upto(xs, t) >= 0,
    decreases t,
{
    if t > 0 {
        lemma_fee_sum_eq(xs, t - 1);
        assert(xs.take(t).drop_last() =~= xs.take(t - 1));
        assert(xs.take(t).last() == xs[t - 1]);
    }
}

proof fn lemma_fees_take_mono(xs: Seq<TxData>, t: int)
    requires
        0 <= t <= xs.len(),
    ensures
        crate::model::total_fees(xs.take(t)) <= crate::model::total_fees(xs),
    decreases xs.len() - t,
{
    if t == xs.len() {
        assert(xs.take(t) =~= xs);
    } else {
        lemma_fees_take_mono(xs, t + 1);
        assert(xs.take(t + 1).drop_last() =~= xs.take(t));
    }
}

/// The size prefix sums stay within the block's size total.
pub proof fn lemma_size_sum_le(xs: Seq<TxData>, t: int)
    requires
        0 <= t <= xs.len(),
    ensures
        0 <= size_sum_upto(xs, t) <= crate::model::total_sizes(xs),
    decreases xs.len(),
{
    lemma_size_sum_eq(xs, t);
    lemma_sizes_take_mono(xs, t);
}

proof fn lemma_size_sum_eq(xs: Seq<TxData>, t: int)
    requires
        0 <= t <= xs.len(),
    ensures
        size_sum_upto(xs, t) <= crate::model::total_sizes(xs.take(t)),
        size_sum_upto(xs, t) >= 0,
    decreases t,
{
    if t > 0 {
        lemma_size_sum_eq(xs, t - 1);
        assert(xs.take(t).drop_last() =~= xs.take(t - 1));
        assert(xs.take(t).last() == xs[t - 1]);
    }
}

proof fn lemma_sizes_take_mono(xs: Seq<TxData>, t: int)
    requires
        0 <= t <= xs.len(),
    ensures
        crate::model::total_sizes(xs.take(t)) <= crate::model::total_sizes(xs),
    decreases xs.len() - t,
{
    if t == xs.len() {
        assert(xs.take(t) =~= xs);
    } else {
        lemma_sizes_take_mono(xs, t + 1);
        assert(xs.take(t + 1).drop_last() =~= xs.take(t));
    }
}

impl FeerateStats {
    /// Derives the fee statistics of a block.
    ///
    /// Minima and maxima are 0 when the block holds only the coinbase.
    #[verifier::loop_isolation(false)]
    #[verifier::rlimit(100)]
    pub fn from_block(block: &Block, date: DateYmd) -> (s: FeerateStats)
        requires
            block.height <= 0x7fff_ffff_ffff_ffff,
            block.txdata@.len() >= 1,
            block.txdata@.len() <= 0x7fff_ffff,
            crate::model::total_fees(block.txdata@) <= 0x7fff_ffff_ffff_ffff,
            crate::model::total_sizes(block.txdata@) <= 0x7fff_ffff_ffff_ffff,
            forall|t: int|
                1 <= t < block.txdata@.len() ==> (#[trigger] block.txdata@[t]).size
                    <= 0x7fff_ffff,
        ensures
            s.height == block.height,
            s.date == date,
            s.fee_sum == fee_sum_upto(block.txdata@, block.txdata@.len() as int),
            s.size_sum == size_sum_upto(block.txdata@, block.txdata@.len() as int),
            s.fee_min == match fee_min_upto(block.txdata@, block.txdata@.len() as int) {
                Some(m) => m,
                None => 0,
            },
            s.fee_max == match fee_max_upto(block.txdata@, block.txdata@.len() as int) {
                Some(m) => m,
                None => 0,
            },
            s.size_min == match size_min_upto(block.txdata@, block.txdata@.len() as int) {
                Some(m) => m,
                None => 0,
            },
            s.size_max == match size_max_upto(block.txdata@, block.txdata@.len() as int) {
                Some(m) => m,
                None => 0,
            },
            s.zero_fee_tx == nccount(block.txdata@, block.txdata@.len() as int, r_zero_fee()),
            s.below_1_sat_vbyte == nccount(
                block.txdata@,
                block.txdata@.len() as int,
                r_below_one(),
            ),
            s.feerate_1_2_sat_vbyte == nccount(
                block.txdata@,
                block.txdata@.len() as int,
                r_band(1, 2),
            ),
            s.feerate_2_5_sat_vbyte == nccount(
                block.txdata@,
                block.txdata@.len() as int,
                r_band(2, 5),
            ),
            s.feerate_5_10_sat_vbyte == nccount(
                block.txdata@,
                block.txdata@.len() as int,
                r_band(5, 10),
            ),
            s.feerate_10_25_sat_vbyte == nccount(
                block.txdata@,
                block.txdata@.len() as int,
                r_band(10, 25),
            ),
            s.feerate_25_50_sat_vbyte == nccount(
                block.txdata@,
                block.txdata@.len() as int,
                r_band(25, 50),
            ),
            s.feerate_50_100_sat_vbyte == nccount(
                block.txdata@,
                block.txdata@.len() as int,
                r_band(50, 100),
            ),
            s.feerate_100_250_sat_vbyte == nccount(
                block.txdata@,
                block.txdata@.len() as int,
                r_band(100, 250),
            ),
            s.feerate_250_500_sat_vbyte == nccount(
                block.txdata@,
                block.txdata@.len() as int,
                r_band(250, 500),
            ),
            s.feerate_500_1000_sat_vbyte == nccount(
                block.txdata@,
                block.txdata@.len() as int,
                r_band(500, 1000),
            ),
            s.feerate_1000_plus_sat_vbyte == nccount(
                block.txdata@,
                block.txdata@.len() as int,
                r_band_top(),
            ),
    {
        let ghost xs = block.txdata@;
        let mut s = FeerateStats {
            height: block.height as i64,
            date,
            fee_min: 0, fee_max: 0, fee_sum: 0, size_min: 0, size_max: 0, size_sum: 0,
            zero_fee_tx: 0, below_1_sat_vbyte: 0,
            feerate_1_2_sat_vbyte: 0, feerate_2_5_sat_vbyte: 0, feerate_5_10_sat_vbyte: 0,
            feerate_10_25_sat_vbyte: 0, feerate_25_50_sat_vbyte: 0, feerate_50_100_sat_vbyte: 0,
            feerate_100_250_sat_vbyte: 0, feerate_250_500_sat_vbyte: 0,
            feerate_500_1000_sat_vbyte: 0, feerate_1000_plus_sat_vbyte: 0,
        };
        let mut have_any = false;
        let n = block.txdata.len();
        let mut t: usize = 1;
        while t < n
            invariant
                1 <= t <= n,
                have_any == (t > 1),
                s.height == block.height as i64,
                s.date == date,
                s.fee_sum == fee_sum_upto(xs, t as int),
                s.size_sum == size_sum_upto(xs, t as int),
                fee_min_upto(xs, t as int) == if have_any {
                    Some(s.fee_min as int)
                } else {
                    Option::<int>::None
                },
                fee_max_upto(xs, t as int) == if have_any {
                    Some(s.fee_max as int)
                } else {
                    Option::<int>::None
                },
                size_min_upto(xs, t as int) == if have_any {
                    Some(s.size_min as int)
                } else {
                    Option::<int>::None
                },
                size_max_upto(xs, t as int) == if have_any {
                    Some(s.size_max as int)
                } else {
                    Option::<int>::None
                },
                !have_any ==> s.fee_min == 0 && s.fee_max == 0 && s.size_min == 0 && s.size_max
                    == 0,
                s.zero_fee_tx == nccount(xs, t as int, r_zero_fee()),
                s.below_1_sat_vbyte == nccount(xs, t as int, r_below_one()),
                s.feerate_1_2_sat_vbyte == nccount(xs, t as int, r_band(1, 2)),
                s.feerate_2_5_sat_vbyte == nccount(xs, t as int, r_band(2, 5)),
                s.feerate_5_10_sat_vbyte == nccount(xs, t as int, r_band(5, 10)),
                s.feerate_10_25_sat_vbyte == nccount(xs, t as int, r_band(10, 25)),
                s.feerate_25_50_sat_vbyte == nccount(xs, t as int, r_band(25, 50)),
                s.feerate_50_100_sat_vbyte == nccount(xs, t as int, r_band(50, 100)),
                s.feerate_100_250_sat_vbyte == nccount(xs, t as int, r_band(100, 250)),
                s.feerate_250_500_sat_vbyte == nccount(xs, t as int, r_band(250, 500)),
                s.feerate_500_1000_sat_vbyte == nccount(xs, t as int, r_band(500, 1000)),
                s.feerate_1000_plus_sat_vbyte == nccount(xs, t as int, r_band_top()),
            decreases n - t,
        {
            proof {
                lemma_nccount_le(xs, t as int);
                lemma_fee_sum_le(xs, t as int);
                lemma_fee_sum_le(xs, t + 1);
                lemma_size_sum_le(xs, t as int);
                lemma_size_sum_le(xs, t + 1);
            }
            let x = &block.txdata[t];
            let fee: u64 = match x.fee {
                Some(f) => f,
                None => 0,
            };
            let vsize: u64 = x.vsize;
            // Feerate band classification, on exact integer comparisons:
            // fee / vsize lies in [lo, hi) exactly when
            // lo * vsize <= fee < hi * vsize.
            if vsize == 0 {
                s.feerate_1000_plus_sat_vbyte = s.feerate_1000_plus_sat_vbyte + 1;
            } else {
                let q: u64 = fee / vsize;
                if q < 1 {
                    proof {
                        lemma_band_from_quotient(fee as int, vsize as int, q as int, 0, 1);
                    }
                    s.below_1_sat_vbyte = s.below_1_sat_vbyte + 1;
                } else if q < 2 {
                    proof {
                        lemma_band_from_quotient(fee as int, vsize as int, q as int, 1, 2);
                    }
                    s.feerate_1_2_sat_vbyte = s.feerate_1_2_sat_vbyte + 1;
                } else if q < 5 {
                    proof {
                        lemma_band_from_quotient(fee as int, vsize as int, q as int, 2, 5);
                    }
                    s.feerate_2_5_sat_vbyte = s.feerate_2_5_sat_vbyte + 1;
                } else if q < 10 {
                    proof {
                        lemma_band_from_quotient(fee as int, vsize as int, q as int, 5, 10);
                    }
                    s.feerate_5_10_sat_vbyte = s.feerate_5_10_sat_vbyte + 1;
                } else if q < 25 {
                    proof {
                        lemma_band_from_quotient(fee as int, vsize as int, q as int, 10, 25);
                    }
                    s.feerate_10_25_sat_vbyte = s.feerate_10_25_sat_vbyte + 1;
                } else if q < 50 {
                    proof {
                        lemma_band_from_quotient(fee as int, vsize as int, q as int, 25, 50);
                    }
                    s.feerate_25_50_sat_vbyte = s.feerate_25_50_sat_vbyte + 1;
                } else if q < 100 {
                    proof {
                        lemma_band_from_quotient(fee as int, vsize as int, q as int, 50, 100);
                    }
                    s.feerate_50_100_sat_vbyte = s.feerate_50_100_sat_vbyte + 1;
                } else if q < 250 {
                    proof {
                        lemma_band_from_quotient(fee as int, vsize as int, q as int, 100, 250);
                    }
                    s.feerate_100_250_sat_vbyte = s.feerate_100_250_sat_vbyte + 1;
                } else if q < 500 {
                    proof {
                        lemma_band_from_quotient(fee as int, vsize as int, q as int, 250, 500);
                    }
                    s.feerate_250_500_sat_vbyte = s.feerate_250_500_sat_vbyte + 1;
                } else if q < 1000 {
                    proof {
                        lemma_band_from_quotient(fee as int, vsize as int, q as int, 500, 1000);
                    }
                    s.feerate_500_1000_sat_vbyte = s.feerate_500_1000_sat_vbyte + 1;
                } else {
                    proof {
                        lemma_band_from_quotient(fee as int, vsize as int, q as int, 1000, 1001);
                    }
                    s.feerate_1000_plus_sat_vbyte = s.feerate_1000_plus_sat_vbyte + 1;
                }
            }
            if matches!(x.fee, Some(0u64)) {
                s.zero_fee_tx = s.zero_fee_tx + 1;
            }
            s.fee_sum = s.fee_sum + (fee as i64);
            s.size_sum = s.size_sum + (x.size as i64);
            if !have_any {
                s.fee_min = fee as i64;
                s.fee_max = fee as i64;
                s.size_min = x.size as i32;
                s.size_max = x.size as i32;
                have_any = true;
            } else {
                if (fee as i64) < s.fee_min {
                    s.fee_min = fee as i64;
                }
                if (fee as i64) > s.fee_max {
                    s.fee_max = fee as i64;
                }
                if (x.size as i32) < s.size_min {
                    s.size_min = x.size as i32;
                }
                if (x.size as i32) > s.size_max {
                    s.size_max = x.size as i32;
                }
            }
            t = t + 1;
        }
        s
    }
}

/// Translates the integer quotient into the band inequalities.
proof fn lemma_band_from_quotient(fee: int, vsize: int, q: int, lo: int, hi: int)
    requires
        vsize > 0,
        fee >= 0,
        q == fee / vsize,
        0 <= lo <= q,
        lo < hi,
        hi == 1001 || q < hi,
    ensures
        lo * vsize <= fee,
        hi != 1001 ==> fee < hi * vsize,
        hi == 1001 ==> fee >= lo * vsize,
{
    assert(fee == q * vsize + fee % vsize && 0 <= fee % vsize < vsize) by (nonlinear_arith)
        requires
            vsize > 0,
            q == fee / vsize,
            fee >= 0,
    ;
    assert(lo * vsize <= q * vsize) by (nonlinear_arith)
        requires
            lo <= q,
            vsize > 0,
    ;
    if hi != 1001 {
        assert(q * vsize + vsize <= hi * vsize) by (nonlinear_arith)
            requires
                q < hi,
                vsize > 0,
        ;
    }
}

/// A positive virtual size puts the transaction in exactly one feerate
/// class.
pub proof fn lemma_exactly_one_band(x: TxData)
    requires
        x.vsize > 0,
    ensures
        (if below_one(x) { 1int } else { 0int }) + (if in_band(x, 1, 2) { 1int } else { 0int })
            + (if in_band(x, 2, 5) { 1int } else { 0int }) + (if in_band(x, 5, 10) { 1int } else {
            0int
        }) + (if in_band(x, 10, 25) { 1int } else { 0int }) + (if in_band(x, 25, 50) { 1int } else {
            0int
        }) + (if in_band(x, 50, 100) { 1int } else { 0int }) + (if in_band(x, 100, 250) {
            1int
        } else {
            0int
        }) + (if in_band(x, 250, 500) { 1int } else { 0int }) + (if in_band(x, 500, 1000) {
            1int
        } else {
            0int
        }) + (if band_top(x) { 1int } else { 0int }) == 1,
{
}

} // verus!
