//! Block-level laws of the derived statistics.
//!
//! Each proof function states a property that relates several records or
//! several fields of one record, over the same spec functions their
//! contracts use.

use vstd::prelude::*;

use crate::caldate::DateYmd;
use crate::hexnum::spec_hex_value;
use crate::model::{Block, total_vsizes};
use crate::stats::{Stats, facts_usable};
use crate::stats::blockstats::{c_all, c_rbf, c_segwit, c_taproot, payments_if};
use crate::stats::feeratestats::{
    fee_max_upto, fee_min_upto, fee_sum_upto, size_max_upto, size_min_upto, size_sum_upto,
};
use crate::model::InputData;
use crate::stats::inputstats::{in_fact_match, in_node_match};
use crate::stats::outputstats::{cb_matches, out_bytes, out_matches_prefix, out_value_tx, out_value_total};
use crate::stats::scriptstats::{sc_matches, sc_txs};
use crate::stats::txstats::{
    dust_fold, g_1_input, g_1_input_1_output, g_1_input_2_output, g_1_output, g_bip69,
    g_native, g_nested, g_only_legacy, g_only_segwit, g_only_taproot, g_rbf, g_segwit,
    g_segwit_and_legacy, g_taproot, g_tl_height, g_tl_not_enforced, g_tl_timestamp,
    g_tl_too_high, g_version, g_version_unknown, txcount,
};

use crate::classify::{InKind, InputFact, OrFlavor, OutKind, OutputFact, TxFacts, facts_aligned};
use crate::classify::{facts_all_like, facts_like};
use crate::model::{TxData, total_inputs, total_outputs};
use crate::stats::facts_seq;
use crate::stats::feeratestats::{nccount, r_band, r_band_top, r_below_one, r_zero_fee};
use crate::stats::inputstats::{fcount, fcount_tx, in_atoms, ncount, p_kind, q_anchor};
use crate::stats::outputstats::{
    out_amount, out_atoms, out_count, out_count_tx, out_dust, out_flavor,
};
use crate::stats::scriptstats::script_atoms;
use crate::caldate::{spec_day_number, spec_valid_date};

verus! {

/// The thirteen input-type classes partition the inputs: their counts sum
/// to the number of inputs of one transaction.
pub proof fn lemma_input_classes_tx(is: Seq<InputFact>)
    ensures
        fcount_tx(is, p_kind(InKind::P2pk)) + fcount_tx(is, p_kind(InKind::P2pkh)) + fcount_tx(
            is,
            p_kind(InKind::P2shP2wpkh),
        ) + fcount_tx(is, p_kind(InKind::P2wpkh)) + fcount_tx(is, p_kind(InKind::P2ms))
            + fcount_tx(is, p_kind(InKind::P2sh)) + fcount_tx(is, p_kind(InKind::P2shP2wsh))
            + fcount_tx(is, p_kind(InKind::P2wsh)) + fcount_tx(is, p_kind(InKind::Coinbase))
            + fcount_tx(is, p_kind(InKind::CoinbaseWitness)) + fcount_tx(
            is,
            p_kind(InKind::P2trKeypath),
        ) + fcount_tx(is, p_kind(InKind::P2trScriptpath)) + fcount_tx(
            is,
            p_kind(InKind::Unknown),
        ) == is.len(),
    decreases is.len(),
{
    if is.len() > 0 {
        lemma_input_classes_tx(is.drop_last());
    }
}

/// The same partition over a list of transactions: the class counts sum
/// to the total number of input facts.
pub proof fn lemma_input_classes(fs: Seq<TxFacts>)
    ensures
        fcount(fs, p_kind(InKind::P2pk)) + fcount(fs, p_kind(InKind::P2pkh)) + fcount(
            fs,
            p_kind(InKind::P2shP2wpkh),
        ) + fcount(fs, p_kind(InKind::P2wpkh)) + fcount(fs, p_kind(InKind::P2ms)) + fcount(
            fs,
            p_kind(InKind::P2sh),
        ) + fcount(fs, p_kind(InKind::P2shP2wsh)) + fcount(fs, p_kind(InKind::P2wsh)) + fcount(
            fs,
            p_kind(InKind::Coinbase),
        ) + fcount(fs, p_kind(InKind::CoinbaseWitness)) + fcount(fs, p_kind(InKind::P2trKeypath))
            + fcount(fs, p_kind(InKind::P2trScriptpath)) + fcount(fs, p_kind(InKind::Unknown))
            == in_atoms(fs),
    decreases fs.len(),
{
    if fs.len() > 0 {
        lemma_input_classes(fs.drop_last());
        lemma_input_classes_tx(fs.last().inputs@);
    }
}

/// Aligned facts hold as many inputs as the node reports.
pub proof fn lemma_aligned_input_total(fs: Seq<TxFacts>, xs: Seq<TxData>)
    requires
        facts_aligned(fs, xs),
    ensures
        in_atoms(fs) == total_inputs(xs),
    decreases fs.len(),
{
    if fs.len() > 0 {
        assert(fs[fs.len() - 1].inputs@.len() == xs[fs.len() - 1].inputs@.len());
        assert(facts_aligned(fs.drop_last(), xs.drop_last()));
        lemma_aligned_input_total(fs.drop_last(), xs.drop_last());
    }
}

/// Aligned facts hold as many outputs as the node reports.
pub proof fn lemma_aligned_output_total(fs: Seq<TxFacts>, xs: Seq<TxData>)
    requires
        facts_aligned(fs, xs),
    ensures
        out_atoms(fs) == total_outputs(xs),
    decreases fs.len(),
{
    if fs.len() > 0 {
        assert(fs[fs.len() - 1].inputs@.len() == xs[fs.len() - 1].inputs@.len());
        assert(facts_aligned(fs.drop_last(), xs.drop_last()));
        lemma_aligned_output_total(fs.drop_last(), xs.drop_last());
    }
}

/// Input-type exhaustiveness: the fifteen input-type fields of the input
/// record sum to the block's input total.  The pay-to-anchor second pass
/// moves counts from the unknown class without changing the sum.
pub proof fn lemma_input_type_exhaustive(fs: Seq<TxFacts>, xs: Seq<TxData>)
    requires
        facts_aligned(fs, xs),
    ensures
        fcount(fs, p_kind(InKind::P2pk)) + fcount(fs, p_kind(InKind::P2pkh)) + fcount(
            fs,
            p_kind(InKind::P2shP2wpkh),
        ) + fcount(fs, p_kind(InKind::P2wpkh)) + fcount(fs, p_kind(InKind::P2ms)) + fcount(
            fs,
            p_kind(InKind::P2sh),
        ) + fcount(fs, p_kind(InKind::P2shP2wsh)) + fcount(fs, p_kind(InKind::P2wsh)) + fcount(
            fs,
            p_kind(InKind::Coinbase),
        ) + fcount(fs, p_kind(InKind::CoinbaseWitness)) + fcount(fs, p_kind(InKind::P2trKeypath))
            + fcount(fs, p_kind(InKind::P2trScriptpath)) + ncount(xs, q_anchor()) + (fcount(
            fs,
            p_kind(InKind::Unknown),
        ) - ncount(xs, q_anchor())) == total_inputs(xs),
{
    lemma_input_classes(fs);
    lemma_aligned_input_total(fs, xs);
}

/// The ten output-type classes partition one transaction's outputs.
pub proof fn lemma_output_classes_tx(os: Seq<OutputFact>)
    ensures
        out_count_tx(os, OutKind::P2pk) + out_count_tx(os, OutKind::P2pkh) + out_count_tx(
            os,
            OutKind::P2wpkh,
        ) + out_count_tx(os, OutKind::P2ms) + out_count_tx(os, OutKind::P2sh) + out_count_tx(
            os,
            OutKind::P2wsh,
        ) + out_count_tx(os, OutKind::OpReturn) + out_count_tx(os, OutKind::P2tr) + out_count_tx(
            os,
            OutKind::P2a,
        ) + out_count_tx(os, OutKind::Unknown) == os.len(),
    decreases os.len(),
{
    if os.len() > 0 {
        lemma_output_classes_tx(os.drop_last());
    }
}

/// Output-type exhaustiveness: the ten output-type fields of the output
/// record sum to the block's output total.
pub proof fn lemma_output_type_exhaustive(fs: Seq<TxFacts>, xs: Seq<TxData>)
    requires
        facts_aligned(fs, xs),
    ensures
        out_count(fs, OutKind::P2pk) + out_count(fs, OutKind::P2pkh) + out_count(
            fs,
            OutKind::P2wpkh,
        ) + out_count(fs, OutKind::P2ms) + out_count(fs, OutKind::P2sh) + out_count(
            fs,
            OutKind::P2wsh,
        ) + out_count(fs, OutKind::OpReturn) + out_count(fs, OutKind::P2tr) + out_count(
            fs,
            OutKind::P2a,
        ) + out_count(fs, OutKind::Unknown) == total_outputs(xs),
    decreases fs.len(),
{
    lemma_aligned_output_total(fs, xs);
    lemma_output_classes_sum(fs);
}

proof fn lemma_output_classes_sum(fs: Seq<TxFacts>)
    ensures
        out_count(fs, OutKind::P2pk) + out_count(fs, OutKind::P2pkh) + out_count(
            fs,
            OutKind::P2wpkh,
        ) + out_count(fs, OutKind::P2ms) + out_count(fs, OutKind::P2sh) + out_count(
            fs,
            OutKind::P2wsh,
        ) + out_count(fs, OutKind::OpReturn) + out_count(fs, OutKind::P2tr) + out_count(
            fs,
            OutKind::P2a,
        ) + out_count(fs, OutKind::Unknown) == out_atoms(fs),
    decreases fs.len(),
{
    if fs.len() > 0 {
        lemma_output_classes_sum(fs.drop_last());
        lemma_output_classes_tx(fs.last().outputs@);
    }
}

/// The coinbase shape of a block's facts: the first transaction's single
/// input is the coinbase, and no other transaction has one.
pub open spec fn coinbase_shape(fs: Seq<TxFacts>) -> bool {
    &&& fs.len() >= 1
    &&& fs[0].inputs@.len() == 1
    &&& (fs[0].inputs@[0].kind == InKind::Coinbase || fs[0].inputs@[0].kind
        == InKind::CoinbaseWitness)
    &&& forall|t: int, i: int|
        1 <= t < fs.len() && 0 <= i < fs[t].inputs@.len() ==> (#[trigger] fs[t].inputs@[i]).kind
            != InKind::Coinbase && fs[t].inputs@[i].kind != InKind::CoinbaseWitness
}

/// Coinbase invariant: exactly one input of the block counts as coinbase
/// or witness-coinbase.
pub proof fn lemma_one_coinbase(fs: Seq<TxFacts>)
    requires
        coinbase_shape(fs),
    ensures
        fcount(fs, p_kind(InKind::Coinbase)) + fcount(fs, p_kind(InKind::CoinbaseWitness)) == 1,
{
    lemma_one_coinbase_upto(fs, fs.len() as int);
    assert(fs.take(fs.len() as int) =~= fs);
}

proof fn lemma_one_coinbase_upto(fs: Seq<TxFacts>, t: int)
    requires
        coinbase_shape(fs),
        0 <= t <= fs.len(),
    ensures
        fcount(fs.take(t), p_kind(InKind::Coinbase)) + fcount(
            fs.take(t),
            p_kind(InKind::CoinbaseWitness),
        ) == if t >= 1 {
            1int
        } else {
            0int
        },
    decreases t,
{
    if t > 0 {
        lemma_one_coinbase_upto(fs, t - 1);
        assert(fs.take(t).drop_last() =~= fs.take(t - 1));
        assert(fs.take(t).last() == fs[t - 1]);
        if t == 1 {
            lemma_single_coinbase_tx(fs[0].inputs@);
        } else {
            lemma_no_coinbase_tx(fs, t - 1);
        }
    }
}

proof fn lemma_single_coinbase_tx(is: Seq<InputFact>)
    requires
        is.len() == 1,
        is[0].kind == InKind::Coinbase || is[0].kind == InKind::CoinbaseWitness,
    ensures
        fcount_tx(is, p_kind(InKind::Coinbase)) + fcount_tx(is, p_kind(InKind::CoinbaseWitness))
            == 1,
{
    assert(is.drop_last() =~= Seq::<InputFact>::empty());
    assert(is.last() == is[0]);
    assert(p_kind(InKind::Coinbase)(is[0]) == (is[0].kind == InKind::Coinbase));
    assert(p_kind(InKind::CoinbaseWitness)(is[0]) == (is[0].kind == InKind::CoinbaseWitness));
    assert(fcount_tx(Seq::<InputFact>::empty(), p_kind(InKind::Coinbase)) == 0);
    assert(fcount_tx(Seq::<InputFact>::empty(), p_kind(InKind::CoinbaseWitness)) == 0);
}

proof fn lemma_no_coinbase_tx(fs: Seq<TxFacts>, t: int)
    requires
        coinbase_shape(fs),
        1 <= t < fs.len(),
    ensures
        fcount_tx(fs[t].inputs@, p_kind(InKind::Coinbase)) + fcount_tx(
            fs[t].inputs@,
            p_kind(InKind::CoinbaseWitness),
        ) == 0,
{
    lemma_no_coinbase_take(fs, t, fs[t].inputs@.len() as int);
    assert(fs[t].inputs@.take(fs[t].inputs@.len() as int) =~= fs[t].inputs@);
}

proof fn lemma_no_coinbase_take(fs: Seq<TxFacts>, t: int, k: int)
    requires
        coinbase_shape(fs),
        1 <= t < fs.len(),
        0 <= k <= fs[t].inputs@.len(),
    ensures
        fcount_tx(fs[t].inputs@.take(k), p_kind(InKind::Coinbase)) + fcount_tx(
            fs[t].inputs@.take(k),
            p_kind(InKind::CoinbaseWitness),
        ) == 0,
    decreases k,
{
    if k > 0 {
        lemma_no_coinbase_take(fs, t, k - 1);
        assert(fs[t].inputs@.take(k).drop_last() =~= fs[t].inputs@.take(k - 1));
        assert(fs[t].inputs@.take(k).last() == fs[t].inputs@[k - 1]);
    }
}

/// Feerate-band partition: every non-coinbase transaction lands in the
/// sub-1 class or exactly one band, so these counts sum to the number of
/// transactions besides the coinbase.
pub proof fn lemma_band_partition(xs: Seq<TxData>, t: int)
    requires
        1 <= t <= xs.len(),
    ensures
        nccount(xs, t, r_below_one()) + nccount(xs, t, r_band(1, 2)) + nccount(
            xs,
            t,
            r_band(2, 5),
        ) + nccount(xs, t, r_band(5, 10)) + nccount(xs, t, r_band(10, 25)) + nccount(
            xs,
            t,
            r_band(25, 50),
        ) + nccount(xs, t, r_band(50, 100)) + nccount(xs, t, r_band(100, 250)) + nccount(
            xs,
            t,
            r_band(250, 500),
        ) + nccount(xs, t, r_band(500, 1000)) + nccount(xs, t, r_band_top()) == t - 1,
    decreases t,
{
    if t > 1 {
        lemma_band_partition(xs, t - 1);
        let x = xs[t - 1];
        if x.vsize > 0 {
            crate::stats::feeratestats::lemma_exactly_one_band(x);
        }
    }
}

/// Feerate-band partition with the zero-fee count, as it holds on blocks
/// whose non-coinbase transactions all pay a fee: the zero-fee count is
/// then 0, and the band counts sum to the transactions minus the
/// coinbase.  A block holding a zero-fee transaction (an ephemeral-dust
/// parent, say) falls outside this law: such a transaction is counted
/// both as zero-fee and in the sub-1 class.
pub proof fn lemma_band_partition_with_zero_fee(xs: Seq<TxData>, t: int)
    requires
        1 <= t <= xs.len(),
        forall|i: int| 1 <= i < t ==> (#[trigger] xs[i]).fee != Some(0u64),
    ensures
        nccount(xs, t, r_zero_fee()) + nccount(xs, t, r_below_one()) + nccount(
            xs,
            t,
            r_band(1, 2),
        ) + nccount(xs, t, r_band(2, 5)) + nccount(xs, t, r_band(5, 10)) + nccount(
            xs,
            t,
            r_band(10, 25),
        ) + nccount(xs, t, r_band(25, 50)) + nccount(xs, t, r_band(50, 100)) + nccount(
            xs,
            t,
            r_band(100, 250),
        ) + nccount(xs, t, r_band(250, 500)) + nccount(xs, t, r_band(500, 1000)) + nccount(
            xs,
            t,
            r_band_top(),
        ) == t - 1,
    decreases t,
{
    lemma_band_partition(xs, t);
    lemma_zero_fee_none(xs, t);
}

proof fn lemma_zero_fee_none(xs: Seq<TxData>, t: int)
    requires
        1 <= t <= xs.len(),
        forall|i: int| 1 <= i < t ==> (#[trigger] xs[i]).fee != Some(0u64),
    ensures
        nccount(xs, t, r_zero_fee()) == 0,
    decreases t,
{
    if t > 1 {
        lemma_zero_fee_none(xs, t - 1);
    }
}

/// The whole bundle a block and its facts determine, field by field: the
/// conjunction of the six records' contracts.
pub open spec fn bundle_matches(b: Block, date: DateYmd, fs: Seq<TxFacts>, s: Stats) -> bool {
    let xs = b.txdata@;
    let n = xs.len() as int;
    &&& s.script.height == b.height && s.script.date == date
    &&& sc_matches(s.script, sc_txs(fs))
    &&& s.input.height == b.height && s.input.date == date
    &&& in_fact_match(s.input, fs, fs.len() as int, Seq::<InputFact>::empty(),
        crate::stats::inputstats::ncount(xs, crate::stats::inputstats::q_anchor()))
    &&& in_node_match(s.input, xs, n, Seq::<InputData>::empty(), b.height as int)
    &&& s.output.height == b.height && s.output.date == date
    &&& out_matches_prefix(s.output, fs, xs, fs.len() as int)
    &&& cb_matches(s.output, fs, fs.len() as int)
    &&& s.output.outputs_coinbase == xs[0].outputs@.len()
    &&& s.tx.height == b.height && s.tx.date == date
    &&& s.tx.tx_version_1 == txcount(xs, fs, g_version(1))
    &&& s.tx.tx_version_2 == txcount(xs, fs, g_version(2))
    &&& s.tx.tx_version_3 == txcount(xs, fs, g_version(3))
    &&& s.tx.tx_version_unknown == txcount(xs, fs, g_version_unknown())
    &&& s.tx.tx_output_amount == out_value_total(fs)
    &&& s.tx.tx_spending_segwit == txcount(xs, fs, g_segwit())
    &&& s.tx.tx_spending_only_segwit == txcount(xs, fs, g_only_segwit())
    &&& s.tx.tx_spending_only_legacy == txcount(xs, fs, g_only_legacy())
    &&& s.tx.tx_spending_only_taproot == txcount(xs, fs, g_only_taproot())
    &&& s.tx.tx_spending_segwit_and_legacy == txcount(xs, fs, g_segwit_and_legacy())
    &&& s.tx.tx_spending_nested_segwit == txcount(xs, fs, g_nested())
    &&& s.tx.tx_spending_native_segwit == txcount(xs, fs, g_native())
    &&& s.tx.tx_spending_taproot == txcount(xs, fs, g_taproot())
    &&& s.tx.tx_bip69_compliant == txcount(xs, fs, g_bip69())
    &&& s.tx.tx_signaling_explicit_rbf == txcount(xs, fs, g_rbf())
    &&& s.tx.tx_1_input == txcount(xs, fs, g_1_input())
    &&& s.tx.tx_1_output == txcount(xs, fs, g_1_output())
    &&& s.tx.tx_1_input_1_output == txcount(xs, fs, g_1_input_1_output())
    &&& s.tx.tx_1_input_2_output == txcount(xs, fs, g_1_input_2_output())
    &&& s.tx.tx_spending_newly_created_utxos == dust_fold(xs, n).newly
    &&& s.tx.tx_spending_ephemeral_dust == dust_fold(xs, n).dust
    &&& s.tx.tx_timelock_height == txcount(xs, fs, g_tl_height())
    &&& s.tx.tx_timelock_timestamp == txcount(xs, fs, g_tl_timestamp())
    &&& s.tx.tx_timelock_not_enforced == txcount(xs, fs, g_tl_not_enforced())
    &&& s.tx.tx_timelock_too_high == txcount(xs, fs, g_tl_too_high(b.height as int))
    &&& s.feerate.height == b.height && s.feerate.date == date
    &&& s.feerate.fee_sum == fee_sum_upto(xs, n)
    &&& s.feerate.size_sum == size_sum_upto(xs, n)
    &&& s.feerate.fee_min == match fee_min_upto(xs, n) { Some(m) => m, None => 0 }
    &&& s.feerate.fee_max == match fee_max_upto(xs, n) { Some(m) => m, None => 0 }
    &&& s.feerate.size_min == match size_min_upto(xs, n) { Some(m) => m, None => 0 }
    &&& s.feerate.size_max == match size_max_upto(xs, n) { Some(m) => m, None => 0 }
    &&& s.feerate.zero_fee_tx == nccount(xs, n, r_zero_fee())
    &&& s.feerate.below_1_sat_vbyte == nccount(xs, n, r_below_one())
    &&& s.feerate.feerate_1_2_sat_vbyte == nccount(xs, n, r_band(1, 2))
    &&& s.feerate.feerate_2_5_sat_vbyte == nccount(xs, n, r_band(2, 5))
    &&& s.feerate.feerate_5_10_sat_vbyte == nccount(xs, n, r_band(5, 10))
    &&& s.feerate.feerate_10_25_sat_vbyte == nccount(xs, n, r_band(10, 25))
    &&& s.feerate.feerate_25_50_sat_vbyte == nccount(xs, n, r_band(25, 50))
    &&& s.feerate.feerate_50_100_sat_vbyte == nccount(xs, n, r_band(50, 100))
    &&& s.feerate.feerate_100_250_sat_vbyte == nccount(xs, n, r_band(100, 250))
    &&& s.feerate.feerate_250_500_sat_vbyte == nccount(xs, n, r_band(250, 500))
    &&& s.feerate.feerate_500_1000_sat_vbyte == nccount(xs, n, r_band(500, 1000))
    &&& s.feerate.feerate_1000_plus_sat_vbyte == nccount(xs, n, r_band_top())
    &&& s.block.stats_version == crate::STATS_VERSION
    &&& s.block.height == b.height && s.block.date == date
    &&& s.block.version == b.version
    &&& s.block.nonce == b.nonce as i32
    &&& s.block.bits == spec_hex_value(b.bits@)
    &&& s.block.difficulty == crate::boundary::difficulty_of(spec_hex_value(b.bits@) as u32)
    &&& s.block.size == b.size
    &&& s.block.stripped_size == b.stripped_size
    &&& s.block.vsize == total_vsizes(xs)
    &&& s.block.weight == b.weight
    &&& s.block.empty == (xs.len() == 1)
    &&& s.block.coinbase_output_amount == out_value_tx(fs[0].outputs@)
    &&& s.block.coinbase_weight == fs[0].weight
    &&& s.block.coinbase_locktime_set == (xs[0].lock_time != 0)
    &&& s.block.coinbase_locktime_set_bip54 == (xs[0].lock_time == b.height as int - 1
        && fs[0].spec_locktime_enabled())
    &&& s.block.transactions == xs.len()
    &&& s.block.payments == payments_if(fs, c_all())
    &&& s.block.payments_segwit_spending_tx == payments_if(fs, c_segwit())
    &&& s.block.payments_taproot_spending_tx == payments_if(fs, c_taproot())
    &&& s.block.payments_signaling_explicit_rbf == payments_if(fs, c_rbf())
    &&& s.block.inputs == total_inputs(xs)
    &&& s.block.outputs == total_outputs(xs)
    &&& s.block.pool_id == crate::boundary::pool_id_of(xs[0].raw@)
}

/// Like fact lists stay like after dropping the last record.
proof fn lemma_like_drop_last(fs: Seq<TxFacts>, ns: Seq<TxFacts>)
    requires
        facts_all_like(fs, ns),
        fs.len() > 0,
    ensures
        facts_all_like(fs.drop_last(), ns.drop_last()),
        facts_like(fs.last(), ns.last()),
{
    assert forall|t: int| 0 <= t < fs.drop_last().len() implies facts_like(
        #[trigger] fs.drop_last()[t],
        ns.drop_last()[t],
    ) by {
        assert(fs.drop_last()[t] == fs[t]);
        assert(ns.drop_last()[t] == ns[t]);
    }
}

/// Like fact records classify alike: every spending pattern, the payment
/// estimate and the sequence predicates read only the shared fields.
pub proof fn lemma_like_tx(f: TxFacts, n: TxFacts)
    requires
        facts_like(f, n),
    ensures
        f.spec_spending_segwit() == n.spec_spending_segwit(),
        f.spec_spending_taproot() == n.spec_spending_taproot(),
        f.spec_spending_nested_segwit() == n.spec_spending_nested_segwit(),
        f.spec_spending_native_segwit() == n.spec_spending_native_segwit(),
        f.spec_spending_legacy() == n.spec_spending_legacy(),
        f.spec_spending_multisig() == n.spec_spending_multisig(),
        f.spec_only_spending_segwit() == n.spec_only_spending_segwit(),
        f.spec_only_spending_legacy() == n.spec_only_spending_legacy(),
        f.spec_only_spending_taproot() == n.spec_only_spending_taproot(),
        f.spec_spending_segwit_and_legacy() == n.spec_spending_segwit_and_legacy(),
        f.spec_signaling_explicit_rbf() == n.spec_signaling_explicit_rbf(),
        f.spec_locktime_enabled() == n.spec_locktime_enabled(),
        f.spec_payments() == n.spec_payments(),
{
    assert(f.inputs@ == n.inputs@);
    assert(f.outputs@ == n.outputs@);
}

proof fn lemma_like_fcount_one(fs: Seq<TxFacts>, ns: Seq<TxFacts>, p: spec_fn(InputFact) -> bool)
    requires
        facts_all_like(fs, ns),
    ensures
        fcount(fs, p) == fcount(ns, p),
    decreases fs.len(),
{
    if fs.len() > 0 {
        lemma_like_drop_last(fs, ns);
        lemma_like_fcount_one(fs.drop_last(), ns.drop_last(), p);
    }
}

/// Like fact lists yield the same input-class counts, whatever the class.
pub proof fn lemma_like_fcount(fs: Seq<TxFacts>, ns: Seq<TxFacts>)
    requires
        facts_all_like(fs, ns),
    ensures
        forall|p: spec_fn(InputFact) -> bool| #[trigger] fcount(fs, p) == fcount(ns, p),
{
    assert forall|p: spec_fn(InputFact) -> bool| #[trigger] fcount(fs, p) == fcount(ns, p) by {
        lemma_like_fcount_one(fs, ns, p);
    }
}

proof fn lemma_like_out_count_one(fs: Seq<TxFacts>, ns: Seq<TxFacts>, k: OutKind)
    requires
        facts_all_like(fs, ns),
    ensures
        out_count(fs, k) == out_count(ns, k),
        out_amount(fs, k) == out_amount(ns, k),
    decreases fs.len(),
{
    if fs.len() > 0 {
        lemma_like_drop_last(fs, ns);
        lemma_like_out_count_one(fs.drop_last(), ns.drop_last(), k);
    }
}

proof fn lemma_like_out_flavor_one(fs: Seq<TxFacts>, ns: Seq<TxFacts>, fl: OrFlavor)
    requires
        facts_all_like(fs, ns),
    ensures
        out_flavor(fs, fl) == out_flavor(ns, fl),
    decreases fs.len(),
{
    if fs.len() > 0 {
        lemma_like_drop_last(fs, ns);
        lemma_like_out_flavor_one(fs.drop_last(), ns.drop_last(), fl);
    }
}

/// Like fact lists yield the same output-class counts, amounts and
/// OP_RETURN flavor counts, whatever the class.
pub proof fn lemma_like_out_counts(fs: Seq<TxFacts>, ns: Seq<TxFacts>)
    requires
        facts_all_like(fs, ns),
    ensures
        forall|k: OutKind| #[trigger] out_count(fs, k) == out_count(ns, k),
        forall|k: OutKind| #[trigger] out_amount(fs, k) == out_amount(ns, k),
        forall|fl: OrFlavor| #[trigger] out_flavor(fs, fl) == out_flavor(ns, fl),
{
    assert forall|k: OutKind| #[trigger] out_count(fs, k) == out_count(ns, k) by {
        lemma_like_out_count_one(fs, ns, k);
    }
    assert forall|k: OutKind| #[trigger] out_amount(fs, k) == out_amount(ns, k) by {
        lemma_like_out_count_one(fs, ns, k);
    }
    assert forall|fl: OrFlavor| #[trigger] out_flavor(fs, fl) == out_flavor(ns, fl) by {
        lemma_like_out_flavor_one(fs, ns, fl);
    }
}

/// Like fact lists yield the same scalar totals and script counters.
pub proof fn lemma_like_totals(fs: Seq<TxFacts>, ns: Seq<TxFacts>)
    requires
        facts_all_like(fs, ns),
    ensures
        out_atoms(fs) == out_atoms(ns),
        in_atoms(fs) == in_atoms(ns),
        script_atoms(fs) == script_atoms(ns),
        out_value_total(fs) == out_value_total(ns),
        out_dust(fs) == out_dust(ns),
        sc_txs(fs) == sc_txs(ns),
    decreases fs.len(),
{
    if fs.len() > 0 {
        lemma_like_drop_last(fs, ns);
        lemma_like_totals(fs.drop_last(), ns.drop_last());
        assert(fs.last().inputs@.len() == ns.last().inputs@.len());
        assert(fs.last().outputs@.len() == ns.last().outputs@.len());
    }
}

/// Like fact lists yield the same OP_RETURN payload totals over the same
/// node transactions.
pub proof fn lemma_like_out_bytes(fs: Seq<TxFacts>, ns: Seq<TxFacts>, xs: Seq<TxData>)
    requires
        facts_all_like(fs, ns),
    ensures
        out_bytes(fs, xs) == out_bytes(ns, xs),
    decreases fs.len(),
{
    if fs.len() > 0 && fs.len() <= xs.len() {
        lemma_like_drop_last(fs, ns);
        lemma_like_out_bytes(fs.drop_last(), ns.drop_last(), xs.take(fs.len() - 1));
    }
}

proof fn lemma_like_payments_one(fs: Seq<TxFacts>, ns: Seq<TxFacts>, c: spec_fn(TxFacts) -> bool)
    requires
        facts_all_like(fs, ns),
        forall|t: int| 0 <= t < fs.len() ==> #[trigger] c(fs[t]) == c(ns[t]),
    ensures
        payments_if(fs, c) == payments_if(ns, c),
    decreases fs.len(),
{
    if fs.len() > 0 {
        lemma_like_drop_last(fs, ns);
        assert forall|t: int| 0 <= t < fs.drop_last().len() implies #[trigger] c(
            fs.drop_last()[t],
        ) == c(ns.drop_last()[t]) by {
            assert(fs.drop_last()[t] == fs[t]);
            assert(ns.drop_last()[t] == ns[t]);
        }
        lemma_like_payments_one(fs.drop_last(), ns.drop_last(), c);
        lemma_like_tx(fs.last(), ns.last());
        assert(c(fs.last()) == c(ns.last()));
    }
}

/// Like fact lists yield the same payment estimates under each of the
/// payment conditions.
pub proof fn lemma_like_payments(fs: Seq<TxFacts>, ns: Seq<TxFacts>)
    requires
        facts_all_like(fs, ns),
    ensures
        payments_if(fs, c_all()) == payments_if(ns, c_all()),
        payments_if(fs, c_segwit()) == payments_if(ns, c_segwit()),
        payments_if(fs, c_taproot()) == payments_if(ns, c_taproot()),
        payments_if(fs, c_rbf()) == payments_if(ns, c_rbf()),
{
    let ca = c_all();
    let cs = c_segwit();
    let ct = c_taproot();
    let cr = c_rbf();
    assert forall|t: int| 0 <= t < fs.len() implies #[trigger] ca(fs[t]) == ca(ns[t]) by {
        lemma_like_tx(fs[t], ns[t]);
    }
    assert forall|t: int| 0 <= t < fs.len() implies #[trigger] cs(fs[t]) == cs(ns[t]) by {
        lemma_like_tx(fs[t], ns[t]);
    }
    assert forall|t: int| 0 <= t < fs.len() implies #[trigger] ct(fs[t]) == ct(ns[t]) by {
        lemma_like_tx(fs[t], ns[t]);
    }
    assert forall|t: int| 0 <= t < fs.len() implies #[trigger] cr(fs[t]) == cr(ns[t]) by {
        lemma_like_tx(fs[t], ns[t]);
    }
    lemma_like_payments_one(fs, ns, ca);
    lemma_like_payments_one(fs, ns, cs);
    lemma_like_payments_one(fs, ns, ct);
    lemma_like_payments_one(fs, ns, cr);
}

proof fn lemma_like_txcount_one(
    xs: Seq<TxData>,
    fs: Seq<TxFacts>,
    ns: Seq<TxFacts>,
    g: spec_fn(TxData, TxFacts) -> bool,
)
    requires
        fs.len() == xs.len(),
        facts_all_like(fs, ns),
        forall|t: int| 0 <= t < xs.len() ==> #[trigger] g(xs[t], fs[t]) == g(xs[t], ns[t]),
    ensures
        txcount(xs, fs, g) == txcount(xs, ns, g),
    decreases xs.len(),
{
    if xs.len() > 0 {
        lemma_like_drop_last(fs, ns);
        assert forall|t: int| 0 <= t < xs.drop_last().len() implies #[trigger] g(
            xs.drop_last()[t],
            fs.drop_last()[t],
        ) == g(xs.drop_last()[t], ns.drop_last()[t]) by {
            assert(xs.drop_last()[t] == xs[t]);
            assert(fs.drop_last()[t] == fs[t]);
            assert(ns.drop_last()[t] == ns[t]);
        }
        lemma_like_txcount_one(xs.drop_last(), fs.drop_last(), ns.drop_last(), g);
        assert(g(xs.last(), fs.last()) == g(xs.last(), ns.last()));
    }
}

/// Like fact lists yield the same transaction counts under every counted
/// spending pattern.
pub proof fn lemma_like_txcounts(xs: Seq<TxData>, fs: Seq<TxFacts>, ns: Seq<TxFacts>, height: int)
    requires
        fs.len() == xs.len(),
        facts_all_like(fs, ns),
    ensures
        forall|v: int| #[trigger] txcount(xs, fs, g_version(v)) == txcount(xs, ns, g_version(v)),
        txcount(xs, fs, g_version_unknown()) == txcount(xs, ns, g_version_unknown()),
        txcount(xs, fs, g_segwit()) == txcount(xs, ns, g_segwit()),
        txcount(xs, fs, g_only_segwit()) == txcount(xs, ns, g_only_segwit()),
        txcount(xs, fs, g_only_legacy()) == txcount(xs, ns, g_only_legacy()),
        txcount(xs, fs, g_only_taproot()) == txcount(xs, ns, g_only_taproot()),
        txcount(xs, fs, g_segwit_and_legacy()) == txcount(xs, ns, g_segwit_and_legacy()),
        txcount(xs, fs, g_nested()) == txcount(xs, ns, g_nested()),
        txcount(xs, fs, g_native()) == txcount(xs, ns, g_native()),
        txcount(xs, fs, g_taproot()) == txcount(xs, ns, g_taproot()),
        txcount(xs, fs, g_bip69()) == txcount(xs, ns, g_bip69()),
        txcount(xs, fs, g_rbf()) == txcount(xs, ns, g_rbf()),
        txcount(xs, fs, g_1_input()) == txcount(xs, ns, g_1_input()),
        txcount(xs, fs, g_1_output()) == txcount(xs, ns, g_1_output()),
        txcount(xs, fs, g_1_input_1_output()) == txcount(xs, ns, g_1_input_1_output()),
        txcount(xs, fs, g_1_input_2_output()) == txcount(xs, ns, g_1_input_2_output()),
        txcount(xs, fs, g_tl_height()) == txcount(xs, ns, g_tl_height()),
        txcount(xs, fs, g_tl_timestamp()) == txcount(xs, ns, g_tl_timestamp()),
        txcount(xs, fs, g_tl_not_enforced()) == txcount(xs, ns, g_tl_not_enforced()),
        txcount(xs, fs, g_tl_too_high(height)) == txcount(xs, ns, g_tl_too_high(height)),
{
    assert forall|v: int| #[trigger] txcount(xs, fs, g_version(v)) == txcount(
        xs,
        ns,
        g_version(v),
    ) by {
        let g = g_version(v);
        assert forall|t: int| 0 <= t < xs.len() implies #[trigger] g(xs[t], fs[t]) == g(
            xs[t],
            ns[t],
        ) by {
            lemma_like_tx(fs[t], ns[t]);
        }
        lemma_like_txcount_one(xs, fs, ns, g);
    }
    assert forall|t: int|
        0 <= t < fs.len() implies {
            &&& (#[trigger] fs[t]).spec_spending_segwit() == ns[t].spec_spending_segwit()
            &&& fs[t].spec_spending_taproot() == ns[t].spec_spending_taproot()
            &&& fs[t].spec_spending_nested_segwit() == ns[t].spec_spending_nested_segwit()
            &&& fs[t].spec_spending_native_segwit() == ns[t].spec_spending_native_segwit()
            &&& fs[t].spec_spending_legacy() == ns[t].spec_spending_legacy()
            &&& fs[t].spec_only_spending_segwit() == ns[t].spec_only_spending_segwit()
            &&& fs[t].spec_only_spending_legacy() == ns[t].spec_only_spending_legacy()
            &&& fs[t].spec_only_spending_taproot() == ns[t].spec_only_spending_taproot()
            &&& fs[t].spec_spending_segwit_and_legacy() == ns[t].spec_spending_segwit_and_legacy()
            &&& fs[t].spec_signaling_explicit_rbf() == ns[t].spec_signaling_explicit_rbf()
            &&& fs[t].spec_locktime_enabled() == ns[t].spec_locktime_enabled()
            &&& fs[t].bip69 == ns[t].bip69
        } by {
        lemma_like_tx(fs[t], ns[t]);
    }
    lemma_like_txcount_one(xs, fs, ns, g_version_unknown());
    lemma_like_txcount_one(xs, fs, ns, g_segwit());
    lemma_like_txcount_one(xs, fs, ns, g_only_segwit());
    lemma_like_txcount_one(xs, fs, ns, g_only_legacy());
    lemma_like_txcount_one(xs, fs, ns, g_only_taproot());
    lemma_like_txcount_one(xs, fs, ns, g_segwit_and_legacy());
    lemma_like_txcount_one(xs, fs, ns, g_nested());
    lemma_like_txcount_one(xs, fs, ns, g_native());
    lemma_like_txcount_one(xs, fs, ns, g_taproot());
    lemma_like_txcount_one(xs, fs, ns, g_bip69());
    lemma_like_txcount_one(xs, fs, ns, g_rbf());
    lemma_like_txcount_one(xs, fs, ns, g_1_input());
    lemma_like_txcount_one(xs, fs, ns, g_1_output());
    lemma_like_txcount_one(xs, fs, ns, g_1_input_1_output());
    lemma_like_txcount_one(xs, fs, ns, g_1_input_2_output());
    lemma_like_txcount_one(xs, fs, ns, g_tl_height());
    lemma_like_txcount_one(xs, fs, ns, g_tl_timestamp());
    lemma_like_txcount_one(xs, fs, ns, g_tl_not_enforced());
    lemma_like_txcount_one(xs, fs, ns, g_tl_too_high(height));
}

/// Like fact lists line up with the same node transactions.
proof fn lemma_like_aligned(fs: Seq<TxFacts>, ns: Seq<TxFacts>, xs: Seq<TxData>)
    requires
        facts_all_like(fs, ns),
    ensures
        facts_aligned(fs, xs) == facts_aligned(ns, xs),
{
    if facts_aligned(fs, xs) {
        assert forall|t: int|
            0 <= t < ns.len() implies (#[trigger] ns[t].inputs@.len()) == xs[t].inputs@.len()
            && ns[t].outputs@.len() == xs[t].outputs@.len() by {
            assert(facts_like(fs[t], ns[t]));
            assert(fs[t].inputs@.len() == xs[t].inputs@.len());
        }
    }
    if facts_aligned(ns, xs) {
        assert forall|t: int|
            0 <= t < fs.len() implies (#[trigger] fs[t].inputs@.len()) == xs[t].inputs@.len()
            && fs[t].outputs@.len() == xs[t].outputs@.len() by {
            assert(facts_like(fs[t], ns[t]));
            assert(ns[t].inputs@.len() == xs[t].inputs@.len());
        }
    }
}

/// Like fact lists are interchangeable in the usability bound: alignment
/// and every accumulated total read only the shared fields.
pub proof fn lemma_like_usable(b: Block, fs: Seq<TxFacts>, ns: Seq<TxFacts>)
    requires
        facts_all_like(fs, ns),
    ensures
        facts_usable(b, fs) == facts_usable(b, ns),
{
    lemma_like_totals(fs, ns);
    lemma_like_aligned(fs, ns, b.txdata@);
    if fs.len() >= 1 {
        assert(facts_like(fs[0], ns[0]));
    }
}

/// Like fact lists are interchangeable in the whole bundle statement:
/// every derived field reads only the shared fields of the facts.
#[verifier::rlimit(100)]
pub proof fn lemma_bundle_like(b: Block, date: DateYmd, fs: Seq<TxFacts>, ns: Seq<TxFacts>, s: Stats)
    requires
        facts_all_like(fs, ns),
        fs.len() == b.txdata@.len(),
        fs.len() >= 1,
        bundle_matches(b, date, fs, s),
    ensures
        bundle_matches(b, date, ns, s),
{
    let xs = b.txdata@;
    let n = xs.len() as int;
    lemma_like_totals(fs, ns);
    lemma_like_fcount(fs, ns);
    lemma_like_out_counts(fs, ns);
    lemma_like_out_bytes(fs, ns, xs);
    lemma_like_payments(fs, ns);
    lemma_like_txcounts(xs, fs, ns, b.height as int);
    lemma_like_tx(fs[0], ns[0]);
    assert(fs.take(n) =~= fs);
    assert(ns.take(n) =~= ns);
    assert(fs[0].outputs@ == ns[0].outputs@);
    assert(fs[0].weight == ns[0].weight);
}

/// The analysis is deterministic: two bundles derived from the same block
/// and the same script facts are identical.
pub proof fn lemma_analysis_deterministic(
    b: Block,
    date: DateYmd,
    fs: Seq<TxFacts>,
    s1: Stats,
    s2: Stats,
)
    requires
        bundle_matches(b, date, fs, s1),
        bundle_matches(b, date, fs, s2),
    ensures
        s1 == s2,
{
    assert(s1.script == s2.script);
    assert(s1.input == s2.input);
    assert(s1.output == s2.output);
    assert(s1.tx == s2.tx);
    assert(s1.feerate == s2.feerate);
    assert(s1.block == s2.block);
}

/// Repeat analyses of one block agree: any two bundles that carry a
/// valid date of the block's timestamp and match the block against its
/// named facts are identical, field by field.
pub proof fn lemma_analysis_repeatable(b: Block, s1: Stats, s2: Stats)
    requires
        spec_valid_date(s1.block.date),
        spec_valid_date(s2.block.date),
        spec_day_number(s1.block.date) == b.time / 86400,
        spec_day_number(s2.block.date) == b.time / 86400,
        bundle_matches(b, s1.block.date, facts_seq(b.txdata@), s1),
        bundle_matches(b, s2.block.date, facts_seq(b.txdata@), s2),
    ensures
        s1 == s2,
{
    crate::caldate::lemma_date_unique(s1.block.date, s2.block.date);
    lemma_analysis_deterministic(b, s1.block.date, facts_seq(b.txdata@), s1, s2);
}

} // verus!
