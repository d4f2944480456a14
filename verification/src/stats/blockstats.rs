//! Header-level statistics of a block, with mining-pool identification.

use vstd::prelude::*;

use crate::boundary::{difficulty_of, identify_pool_id, pool_id_of, target_difficulty};
use crate::caldate::DateYmd;
use crate::classify::{TxFacts, count_non_opreturn, lemma_count_non_opreturn_le};
use crate::hexnum::{parse_hex_u32, spec_all_hex, spec_hex_value};
use crate::model::{Block, total_inputs, total_outputs, total_vsizes};
use crate::stats::outputstats::{out_atoms, out_value_tx, out_value_total};
use crate::STATS_VERSION;

verus! {

/// Scalar facts lifted from the block header, plus payment estimates and
/// pool attribution.
#[derive(Clone, Copy, Debug, PartialEq)]
pub struct BlockStats {
    /// The schema version these statistics were derived under.
    pub stats_version: i32,
    pub height: i64,
    pub date: DateYmd,

    pub version: i32,
    pub nonce: i32,
    pub bits: i32,
    /// Whole-number part of the difficulty that the compact bits encode.
    pub difficulty: i64,

    pub size: i64,
    pub stripped_size: i64,
    pub vsize: i64,
    pub weight: i64,
    /// The block holds no transaction besides the coinbase.
    pub empty: bool,

    pub coinbase_output_amount: i64,
    pub coinbase_weight: i64,
    /// The coinbase lock-time holds a non-zero value.
    pub coinbase_locktime_set: bool,
    /// The coinbase lock-time equals the height minus one and some
    /// coinbase input sequence enables the absolute lock-time.
    pub coinbase_locktime_set_bip54: bool,

    pub transactions: i32,
    pub payments: i32,
    pub payments_segwit_spending_tx: i32,
    pub payments_taproot_spending_tx: i32,
    pub payments_signaling_explicit_rbf: i32,

    pub inputs: i32,
    pub outputs: i32,
    /// Catalog id of the identified mining pool; 0 when unidentified.
    pub pool_id: i32,
}

/// Sum of the payment estimates over the transactions that satisfy the
/// condition.
pub open spec fn payments_if(fs: Seq<TxFacts>, c: spec_fn(TxFacts) -> bool) -> int
    decreases fs.len(),
{
    if fs.len() == 0 {
        0
    } else {
        payments_if(fs.drop_last(), c) + if c(fs.last()) {
            fs.last().spec_payments()
        } else {
            0int
        }
    }
}

/// Condition: every transaction.
pub open spec fn c_all() -> spec_fn(TxFacts) -> bool {
    |f: TxFacts| true
}

/// Condition: SegWit-spending transactions.
pub open spec fn c_segwit() -> spec_fn(TxFacts) -> bool {
    |f: TxFacts| f.spec_spending_segwit()
}

/// Condition: Taproot-spending transactions.
pub open spec fn c_taproot() -> spec_fn(TxFacts) -> bool {
    |f: TxFacts| f.spec_spending_taproot()
}

/// Condition: transactions signaling explicit RBF.
pub open spec fn c_rbf() -> spec_fn(TxFacts) -> bool {
    |f: TxFacts| f.spec_signaling_explicit_rbf()
}

/// Payment sums stay within the number of output facts.
pub proof fn lemma_payments_le(fs: Seq<TxFacts>)
    ensures
        forall|c: spec_fn(TxFacts) -> bool| 0 <= #[trigger] payments_if(fs, c) <= out_atoms(fs),
    decreases fs.len(),
{
    if fs.len() > 0 {
        lemma_payments_le(fs.drop_last());
        lemma_count_non_opreturn_le(fs.last().outputs@);
        assert forall|c: spec_fn(TxFacts) -> bool| 0 <= #[trigger] payments_if(fs, c)
            <= out_atoms(fs) by {
            assert(0 <= payments_if(fs.drop_last(), c) <= out_atoms(fs.drop_last()));
        }
    } else {
        assert forall|c: spec_fn(TxFacts) -> bool| 0 <= #[trigger] payments_if(fs, c)
            <= out_atoms(fs) by {}
    }
}

impl BlockStats {
    /// Derives the header statistics of a block.
    ///
    /// Fails exactly when the compact-target bits are not a hex string
    /// whose value fits the signed 32-bit column: a malformed string (or
    /// one over 32 bits) is a hex error, a value over the column width an
    /// integer error.  The coinbase bytes never fail it: the pool id is
    /// the catalog's answer for the first transaction's raw bytes, and
    /// bytes that do not deserialize into a coinbase transaction get the
    /// null pool id 0.
    #[verifier::loop_isolation(false)]
    #[verifier::rlimit(100)]
    pub fn from_block(block: &Block, date: DateYmd, facts: &Vec<TxFacts>) -> (r: Result<
        BlockStats,
        crate::stats::StatsError,
    >)
        requires
            crate::model::block_counts_bounded(*block),
            facts@.len() == block.txdata@.len(),
            out_atoms(facts@) <= 0x7fff_ffff,
            out_value_total(facts@) <= 0x7fff_ffff_ffff_ffff,
            facts@[0].weight <= 0x7fff_ffff_ffff_ffff,
        ensures
            r is Ok <==> (block.bits@.len() >= 1 && spec_all_hex(block.bits@) && spec_hex_value(
                block.bits@,
            ) <= 0x7fff_ffff),
            r matches Err(e) ==> (e == crate::stats::StatsError::UnprefixedHex <==> !(
            block.bits@.len() >= 1 && spec_all_hex(block.bits@) && spec_hex_value(block.bits@)
                <= 0xffff_ffff)),
            r matches Err(e) ==> (e == crate::stats::StatsError::ParseInt <==> (
            block.bits@.len() >= 1 && spec_all_hex(block.bits@) && 0x7fff_ffff < spec_hex_value(
                block.bits@,
            ) <= 0xffff_ffff)),
            r matches Ok(s) ==> {
                &&& s.stats_version == STATS_VERSION
                &&& s.height == block.height
                &&& s.date == date
                &&& s.version == block.version
                &&& s.nonce == block.nonce as i32
                &&& s.bits == spec_hex_value(block.bits@)
                &&& s.difficulty == difficulty_of(spec_hex_value(block.bits@) as u32)
                &&& s.size == block.size
                &&& s.stripped_size == block.stripped_size
                &&& s.vsize == total_vsizes(block.txdata@)
                &&& s.weight == block.weight
                &&& s.empty == (block.txdata@.len() == 1)
                &&& s.coinbase_output_amount == out_value_tx(facts@[0].outputs@)
                &&& s.coinbase_weight == facts@[0].weight
                &&& s.coinbase_locktime_set == (block.txdata@[0].lock_time != 0)
                &&& s.coinbase_locktime_set_bip54 == (block.txdata@[0].lock_time
                    == block.height as int - 1 && facts@[0].spec_locktime_enabled())
                &&& s.transactions == block.txdata@.len()
                &&& s.payments == payments_if(facts@, c_all())
                &&& s.payments_segwit_spending_tx == payments_if(facts@, c_segwit())
                &&& s.payments_taproot_spending_tx == payments_if(facts@, c_taproot())
                &&& s.payments_signaling_explicit_rbf == payments_if(facts@, c_rbf())
                &&& s.inputs == total_inputs(block.txdata@)
                &&& s.outputs == total_outputs(block.txdata@)
                &&& s.pool_id == pool_id_of(block.txdata@[0].raw@)
            },
    {
        let bits_value: u32 = match parse_hex_u32(&block.bits) {
            Some(v) => v,
            None => {
                return Err(crate::stats::StatsError::UnprefixedHex);
            },
        };
        if bits_value > 0x7fff_ffff {
            return Err(crate::stats::StatsError::ParseInt);
        }
        let pool_id = identify_pool_id(&block.txdata[0].raw);
        let difficulty = target_difficulty(bits_value);

        let ghost xs = block.txdata@;
        let ghost fs = facts@;
        let n = block.txdata.len();

        // Virtual size total over the node-reported transactions.
        let mut vsize_sum: u64 = 0;
        let mut t: usize = 0;
        while t < n
            invariant
                0 <= t <= n,
                vsize_sum == vsizes_upto(xs, t as int),
            decreases n - t,
        {
            proof {
                lemma_vsizes_upto(xs, t as int);
                lemma_vsizes_upto(xs, t + 1);
            }
            vsize_sum = vsize_sum + block.txdata[t].vsize;
            t = t + 1;
        }
        proof {
            lemma_vsizes_full(xs);
        }

        // Coinbase output amount from the coinbase transaction's facts.
        proof {
            crate::stats::outputstats::lemma_out_bounds(fs);
            crate::stats::outputstats::lemma_out_bounds_tx(fs[0].outputs@);
            assert(fs.take(1).drop_last() =~= fs.take(0));
            assert(fs.take(1).last() == fs[0]);
            assert(out_value_total(fs.take(0)) == 0);
            assert(out_value_total(fs.take(1)) == out_value_tx(fs[0].outputs@));
            crate::stats::outputstats::lemma_out_atoms_mono(fs, 1);
            crate::stats::outputstats::lemma_out_bounds(fs);
        }
        let coinbase_amount = crate::stats::txstats::coinbase_value_sum(facts);

        // Payment estimates.
        let mut payments: i32 = 0;
        let mut payments_segwit: i32 = 0;
        let mut payments_taproot: i32 = 0;
        let mut payments_rbf: i32 = 0;
        let mut p: usize = 0;
        while p < n
            invariant
                0 <= p <= n,
                payments == payments_if(fs.take(p as int), c_all()),
                payments_segwit == payments_if(fs.take(p as int), c_segwit()),
                payments_taproot == payments_if(fs.take(p as int), c_taproot()),
                payments_rbf == payments_if(fs.take(p as int), c_rbf()),
            decreases n - p,
        {
            proof {
                assert(fs.take(p + 1).drop_last() =~= fs.take(p as int));
                lemma_payments_le(fs.take(p as int));
                lemma_payments_le(fs.take(p + 1));
                crate::stats::outputstats::lemma_out_atoms_mono(fs, p as int);
                crate::stats::outputstats::lemma_out_atoms_mono(fs, p + 1);
                crate::stats::outputstats::lemma_out_bounds(fs);
            }
            let tx = &facts[p];
            let pay = tx.payments();
            let flags = tx.spending_flags();
            proof {
                lemma_count_non_opreturn_le(tx.outputs@);
            }
            payments = payments + (pay as i32);
            if flags.segwit {
                payments_segwit = payments_segwit + (pay as i32);
            }
            if flags.taproot {
                payments_taproot = payments_taproot + (pay as i32);
            }
            if flags.rbf {
                payments_rbf = payments_rbf + (pay as i32);
            }
            p = p + 1;
        }
        proof {
            assert(fs.take(n as int) =~= fs);
            crate::model::lemma_total_inputs_elem(xs, 0);
            crate::model::lemma_total_outputs_elem(xs, 0);
        }

        let coinbase_facts = &facts[0];
        let coinbase_tx = &block.txdata[0];
        let cb_flags = coinbase_facts.spending_flags();

        Ok(
            BlockStats {
                stats_version: STATS_VERSION,
                height: block.height as i64,
                date,
                version: block.version,
                nonce: #[verifier::truncate] (block.nonce as i32),
                bits: bits_value as i32,
                difficulty,
                size: block.size as i64,
                stripped_size: block.stripped_size as i64,
                vsize: vsize_sum as i64,
                weight: block.weight as i64,
                empty: block.txdata.len() == 1,
                coinbase_output_amount: coinbase_amount as i64,
                coinbase_weight: coinbase_facts.weight as i64,
                coinbase_locktime_set: coinbase_tx.lock_time != 0,
                coinbase_locktime_set_bip54: (coinbase_tx.lock_time as i64) == (block.height
                    as i64) - 1 && cb_flags.locktime_enabled,
                transactions: block.txdata.len() as i32,
                payments,
                payments_segwit_spending_tx: payments_segwit,
                payments_taproot_spending_tx: payments_taproot,
                payments_signaling_explicit_rbf: payments_rbf,
                inputs: total_inputs_exec(&block.txdata) as i32,
                outputs: total_outputs_exec(&block.txdata) as i32,
                pool_id,
            },
        )
    }
}

/// Virtual-size sum over the first `t` transactions.
pub open spec fn vsizes_upto(xs: Seq<crate::model::TxData>, t: int) -> int
    decreases t,
{
    if t <= 0 {
        0
    } else {
        vsizes_upto(xs, t - 1) + if t - 1 < xs.len() {
            xs[t - 1].vsize as int
        } else {
            0int
        }
    }
}

proof fn lemma_vsizes_upto(xs: Seq<crate::model::TxData>, t: int)
    requires
        0 <= t <= xs.len(),
    ensures
        0 <= vsizes_upto(xs, t) <= total_vsizes(xs),
    decreases xs.len() - t,
{
    lemma_vsizes_eq(xs, t);
    lemma_vsizes_mono(xs, t);
}

proof fn lemma_vsizes_eq(xs: Seq<crate::model::TxData>, t: int)
    requires
        0 <= t <= xs.len(),
    ensures
        vsizes_upto(xs, t) == total_vsizes(xs.take(t)),
    decreases t,
{
    if t > 0 {
        lemma_vsizes_eq(xs, t - 1);
        assert(xs.take(t).drop_last() =~= xs.take(t - 1));
        assert(xs.take(t).last() == xs[t - 1]);
    }
}

proof fn lemma_vsizes_mono(xs: Seq<crate::model::TxData>, t: int)
    requires
        0 <= t <= xs.len(),
    ensures
        0 <= total_vsizes(xs.take(t)) <= total_vsizes(xs),
    decreases xs.len() - t,
{
    if t == xs.len() {
        assert(xs.take(t) =~= xs);
        lemma_vsizes_nonneg(xs.take(t));
    } else {
        lemma_vsizes_mono(xs, t + 1);
        assert(xs.take(t + 1).drop_last() =~= xs.take(t));
        lemma_vsizes_nonneg(xs.take(t));
    }
}

proof fn lemma_vsizes_nonneg(xs: Seq<crate::model::TxData>)
    ensures
        total_vsizes(xs) >= 0,
    decreases xs.len(),
{
    if xs.len() > 0 {
        lemma_vsizes_nonneg(xs.drop_last());
    }
}

proof fn lemma_vsizes_full(xs: Seq<crate::model::TxData>)
    ensures
        vsizes_upto(xs, xs.len() as int) == total_vsizes(xs),
    decreases xs.len(),
{
    lemma_vsizes_eq(xs, xs.len() as int);
    assert(xs.take(xs.len() as int) =~= xs);
}

/// Input total over the node transactions, as an executable count.
fn total_inputs_exec(txs: &Vec<crate::model::TxData>) -> (r: u64)
    requires
        total_inputs(txs@) <= 0x7fff_ffff,
    ensures
        r == total_inputs(txs@),
{
    let n = txs.len();
    let mut acc: u64 = 0;
    let mut t: usize = 0;
    while t < n
        invariant
            0 <= t <= n,
            n == txs@.len(),
            total_inputs(txs@) <= 0x7fff_ffff,
            acc == total_inputs(txs@.take(t as int)),
        decreases n - t,
    {
        proof {
            assert(txs@.take(t + 1).drop_last() =~= txs@.take(t as int));
            crate::stats::inputstats::lemma_total_inputs_mono(txs@, t as int);
            crate::stats::inputstats::lemma_total_inputs_mono(txs@, t + 1);
        }
        acc = acc + (txs[t].inputs.len() as u64);
        t = t + 1;
    }
    proof {
        assert(txs@.take(n as int) =~= txs@);
    }
    acc
}

/// Output total over the node transactions, as an executable count.
fn total_outputs_exec(txs: &Vec<crate::model::TxData>) -> (r: u64)
    requires
        total_outputs(txs@) <= 0x7fff_ffff,
    ensures
        r == total_outputs(txs@),
{
    let n = txs.len();
    let mut acc: u64 = 0;
    let mut t: usize = 0;
    while t < n
        invariant
            0 <= t <= n,
            n == txs@.len(),
            total_outputs(txs@) <= 0x7fff_ffff,
            acc == total_outputs(txs@.take(t as int)),
        decreases n - t,
    {
        proof {
            assert(txs@.take(t + 1).drop_last() =~= txs@.take(t as int));
            lemma_total_outputs_mono(txs@, t as int);
            lemma_total_outputs_mono(txs@, t + 1);
        }
        acc = acc + (txs[t].outputs.len() as u64);
        t = t + 1;
    }
    proof {
        assert(txs@.take(n as int) =~= txs@);
    }
    acc
}

proof fn lemma_total_outputs_mono(xs: Seq<crate::model::TxData>, t: int)
    requires
        0 <= t <= xs.len(),
    ensures
        0 <= total_outputs(xs.take(t)) <= total_outputs(xs),
    decreases xs.len() - t,
{
    if t == xs.len() {
        assert(xs.take(t) =~= xs);
        lemma_total_outputs_nn(xs.take(t));
    } else {
        lemma_total_outputs_mono(xs, t + 1);
        assert(xs.take(t + 1).drop_last() =~= xs.take(t));
        lemma_total_outputs_nn(xs.take(t));
    }
}

proof fn lemma_total_outputs_nn(xs: Seq<crate::model::TxData>)
    ensures
        total_outputs(xs) >= 0,
    decreases xs.len(),
{
    if xs.len() > 0 {
        lemma_total_outputs_nn(xs.drop_last());
    }
}

} // verus!
