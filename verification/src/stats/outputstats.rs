//! Output statistics of a block: counts and value sums per output type,
//! OP_RETURN protocol flavors and payload bytes, and coinbase-only counts.

use vstd::prelude::*;

use crate::caldate::DateYmd;
use crate::classify::{OrFlavor, OutKind, OutputFact, TxFacts};
use crate::model::TxData;
use crate::opreturn::{opreturn_data_size, spec_opreturn_data_size, lemma_pushed_bytes_le};
use crate::P2A_DUST_THRESHOLD;

verus! {

/// Counts and sums over a block's outputs.
#[derive(Clone, Copy, Debug, PartialEq)]
pub struct OutputStats {
    pub height: i64,
    pub date: DateYmd,

    pub outputs_p2pk: i32,
    pub outputs_p2pkh: i32,
    pub outputs_p2wpkh: i32,
    pub outputs_p2ms: i32,
    pub outputs_p2sh: i32,
    pub outputs_p2wsh: i32,
    pub outputs_opreturn: i32,
    pub outputs_p2tr: i32,
    pub outputs_p2a: i32,
    pub outputs_p2a_dust: i32,
    pub outputs_unknown: i32,

    pub outputs_p2pk_amount: i64,
    pub outputs_p2pkh_amount: i64,
    pub outputs_p2wpkh_amount: i64,
    pub outputs_p2ms_amount: i64,
    pub outputs_p2sh_amount: i64,
    pub outputs_p2wsh_amount: i64,
    pub outputs_p2tr_amount: i64,
    pub outputs_p2a_amount: i64,
    pub outputs_opreturn_amount: i64,
    pub outputs_unknown_amount: i64,

    pub outputs_opreturn_omnilayer: i32,
    pub outputs_opreturn_stacks_block_commit: i32,
    pub outputs_opreturn_bip47_payment_code: i32,
    pub outputs_opreturn_coinbase_rsk: i32,
    pub outputs_opreturn_coinbase_coredao: i32,
    pub outputs_opreturn_coinbase_exsat: i32,
    pub outputs_opreturn_coinbase_hathor: i32,
    pub outputs_opreturn_coinbase_witness_commitment: i32,
    pub outputs_opreturn_runestone: i32,
    pub outputs_opreturn_bytes: i64,

    pub outputs_coinbase: i32,
    pub outputs_coinbase_p2pk: i32,
    pub outputs_coinbase_p2pkh: i32,
    pub outputs_coinbase_p2wpkh: i32,
    pub outputs_coinbase_p2ms: i32,
    pub outputs_coinbase_p2sh: i32,
    pub outputs_coinbase_p2wsh: i32,
    pub outputs_coinbase_p2tr: i32,
    pub outputs_coinbase_opreturn: i32,
    pub outputs_coinbase_unknown: i32,
}

/// Number of outputs of the given kind in one transaction's facts.
pub open spec fn out_count_tx(os: Seq<OutputFact>, k: OutKind) -> int
    decreases os.len(),
{
    if os.len() == 0 {
        0
    } else {
        out_count_tx(os.drop_last(), k) + if os.last().kind == k {
            1int
        } else {
            0int
        }
    }
}

/// Number of outputs of the given kind over a list of transactions.
pub open spec fn out_count(ts: Seq<TxFacts>, k: OutKind) -> int
    decreases ts.len(),
{
    if ts.len() == 0 {
        0
    } else {
        out_count(ts.drop_last(), k) + out_count_tx(ts.last().outputs@, k)
    }
}

/// Value sum of the outputs of the given kind in one transaction's facts.
pub open spec fn out_amount_tx(os: Seq<OutputFact>, k: OutKind) -> int
    decreases os.len(),
{
    if os.len() == 0 {
        0
    } else {
        out_amount_tx(os.drop_last(), k) + if os.last().kind == k {
            os.last().value as int
        } else {
            0int
        }
    }
}

/// Value sum of the outputs of the given kind over a list of transactions.
pub open spec fn out_amount(ts: Seq<TxFacts>, k: OutKind) -> int
    decreases ts.len(),
{
    if ts.len() == 0 {
        0
    } else {
        out_amount(ts.drop_last(), k) + out_amount_tx(ts.last().outputs@, k)
    }
}

/// Number of pay-to-anchor outputs below the dust threshold in one
/// transaction's facts.
pub open spec fn out_dust_tx(os: Seq<OutputFact>) -> int
    decreases os.len(),
{
    if os.len() == 0 {
        0
    } else {
        out_dust_tx(os.drop_last()) + if os.last().kind == OutKind::P2a && os.last().value
            < P2A_DUST_THRESHOLD {
            1int
        } else {
            0int
        }
    }
}

/// Number of pay-to-anchor outputs below the dust threshold.
pub open spec fn out_dust(ts: Seq<TxFacts>) -> int
    decreases ts.len(),
{
    if ts.len() == 0 {
        0
    } else {
        out_dust(ts.drop_last()) + out_dust_tx(ts.last().outputs@)
    }
}

/// Number of OP_RETURN outputs of the given flavor in one transaction.
pub open spec fn out_flavor_tx(os: Seq<OutputFact>, fl: OrFlavor) -> int
    decreases os.len(),
{
    if os.len() == 0 {
        0
    } else {
        out_flavor_tx(os.drop_last(), fl) + if os.last().kind == OutKind::OpReturn
            && os.last().flavor == Some(fl) {
            1int
        } else {
            0int
        }
    }
}

/// Number of OP_RETURN outputs of the given flavor over a list of
/// transactions.
pub open spec fn out_flavor(ts: Seq<TxFacts>, fl: OrFlavor) -> int
    decreases ts.len(),
{
    if ts.len() == 0 {
        0
    } else {
        out_flavor(ts.drop_last(), fl) + out_flavor_tx(ts.last().outputs@, fl)
    }
}

/// OP_RETURN payload bytes of one transaction: for every OP_RETURN output
/// fact, the data bytes pushed by the node-reported script at the same
/// index.
pub open spec fn out_bytes_tx(os: Seq<OutputFact>, t: TxData, upto: int) -> int
    decreases upto,
{
    if upto <= 0 {
        0
    } else {
        out_bytes_tx(os, t, upto - 1) + if 0 <= upto - 1 < os.len() && os[upto - 1].kind
            == OutKind::OpReturn && upto - 1 < t.outputs.len() {
            spec_opreturn_data_size(t.outputs@[upto - 1].script@)
        } else {
            0int
        }
    }
}

/// OP_RETURN payload bytes over a list of transactions.
pub open spec fn out_bytes(ts: Seq<TxFacts>, xs: Seq<TxData>) -> int
    decreases ts.len(),
{
    if ts.len() == 0 || xs.len() < ts.len() {
        0
    } else {
        out_bytes(ts.drop_last(), xs.take(ts.len() - 1)) + out_bytes_tx(
            ts.last().outputs@,
            xs[ts.len() - 1],
            ts.last().outputs@.len() as int,
        )
    }
}

/// The payload-byte total reads only the first `ts.len()` node
/// transactions.
pub proof fn lemma_out_bytes_frame(ts: Seq<TxFacts>, xs: Seq<TxData>, ys: Seq<TxData>)
    requires
        ts.len() <= xs.len(),
        ts.len() <= ys.len(),
        xs.take(ts.len() as int) == ys.take(ts.len() as int),
    ensures
        out_bytes(ts, xs) == out_bytes(ts, ys),
    decreases ts.len(),
{
    if ts.len() > 0 {
        assert(xs[ts.len() - 1] == xs.take(ts.len() as int)[ts.len() - 1]);
        assert(ys[ts.len() - 1] == ys.take(ts.len() as int)[ts.len() - 1]);
        assert(xs.take(ts.len() - 1) =~= xs.take(ts.len() as int).take(ts.len() - 1));
        assert(ys.take(ts.len() - 1) =~= ys.take(ts.len() as int).take(ts.len() - 1));
        assert(xs.take(ts.len() - 1).take(ts.len() - 1) =~= xs.take(ts.len() - 1));
        assert(ys.take(ts.len() - 1).take(ts.len() - 1) =~= ys.take(ts.len() - 1));
        lemma_out_bytes_frame(ts.drop_last(), xs.take(ts.len() - 1), ys.take(ts.len() - 1));
    }
}

/// Number of output facts over a list of transactions.
pub open spec fn out_atoms(ts: Seq<TxFacts>) -> int
    decreases ts.len(),
{
    if ts.len() == 0 {
        0
    } else {
        out_atoms(ts.drop_last()) + ts.last().outputs.len()
    }
}

/// Value sum over all output facts of a list of transactions.
pub open spec fn out_value_total(ts: Seq<TxFacts>) -> int
    decreases ts.len(),
{
    if ts.len() == 0 {
        0
    } else {
        out_value_total(ts.drop_last()) + out_value_tx(ts.last().outputs@)
    }
}

/// Value sum over one transaction's output facts.
pub open spec fn out_value_tx(os: Seq<OutputFact>) -> int
    decreases os.len(),
{
    if os.len() == 0 {
        0
    } else {
        out_value_tx(os.drop_last()) + os.last().value
    }
}

/// Script byte total over the node-reported outputs of a list of
/// transactions.
pub open spec fn script_bytes_total(xs: Seq<TxData>) -> int
    decreases xs.len(),
{
    if xs.len() == 0 {
        0
    } else {
        script_bytes_total(xs.drop_last()) + script_bytes_tx(xs.last().outputs@)
    }
}

/// Script byte total over one transaction's node-reported outputs.
pub open spec fn script_bytes_tx(os: Seq<crate::model::OutputData>) -> int
    decreases os.len(),
{
    if os.len() == 0 {
        0
    } else {
        script_bytes_tx(os.drop_last()) + os.last().script@.len()
    }
}

/// All per-kind counters lie within the output count, and amounts within
/// the value total.
pub proof fn lemma_out_bounds_tx(os: Seq<OutputFact>)
    ensures
        forall|k: OutKind| 0 <= #[trigger] out_count_tx(os, k) <= os.len(),
        forall|k: OutKind| 0 <= #[trigger] out_amount_tx(os, k) <= out_value_tx(os),
        forall|fl: OrFlavor| 0 <= #[trigger] out_flavor_tx(os, fl) <= os.len(),
        0 <= out_dust_tx(os) <= os.len(),
        0 <= out_value_tx(os),
    decreases os.len(),
{
    if os.len() > 0 {
        lemma_out_bounds_tx(os.drop_last());
        assert forall|k: OutKind| 0 <= #[trigger] out_count_tx(os, k) <= os.len() by {
            assert(0 <= out_count_tx(os.drop_last(), k) <= os.drop_last().len());
        }
        assert forall|k: OutKind| 0 <= #[trigger] out_amount_tx(os, k) <= out_value_tx(os) by {
            assert(0 <= out_amount_tx(os.drop_last(), k) <= out_value_tx(os.drop_last()));
        }
        assert forall|fl: OrFlavor| 0 <= #[trigger] out_flavor_tx(os, fl) <= os.len() by {
            assert(0 <= out_flavor_tx(os.drop_last(), fl) <= os.drop_last().len());
        }
    } else {
        assert forall|k: OutKind| 0 <= #[trigger] out_count_tx(os, k) <= os.len() by {}
        assert forall|k: OutKind| 0 <= #[trigger] out_amount_tx(os, k) <= out_value_tx(os) by {}
        assert forall|fl: OrFlavor| 0 <= #[trigger] out_flavor_tx(os, fl) <= os.len() by {}
    }
}

/// The same bounds over a list of transactions.
pub proof fn lemma_out_bounds(ts: Seq<TxFacts>)
    ensures
        forall|k: OutKind| 0 <= #[trigger] out_count(ts, k) <= out_atoms(ts),
        forall|k: OutKind| 0 <= #[trigger] out_amount(ts, k) <= out_value_total(ts),
        forall|fl: OrFlavor| 0 <= #[trigger] out_flavor(ts, fl) <= out_atoms(ts),
        0 <= out_dust(ts) <= out_atoms(ts),
        0 <= out_value_total(ts),
        0 <= out_atoms(ts),
    decreases ts.len(),
{
    if ts.len() > 0 {
        lemma_out_bounds(ts.drop_last());
        lemma_out_bounds_tx(ts.last().outputs@);
        assert forall|k: OutKind| 0 <= #[trigger] out_count(ts, k) <= out_atoms(ts) by {
            assert(0 <= out_count(ts.drop_last(), k) <= out_atoms(ts.drop_last()));
            assert(0 <= out_count_tx(ts.last().outputs@, k));
        }
        assert forall|k: OutKind| 0 <= #[trigger] out_amount(ts, k) <= out_value_total(ts) by {
            assert(0 <= out_amount(ts.drop_last(), k) <= out_value_total(ts.drop_last()));
            assert(0 <= out_amount_tx(ts.last().outputs@, k));
        }
        assert forall|fl: OrFlavor| 0 <= #[trigger] out_flavor(ts, fl) <= out_atoms(ts) by {
            assert(0 <= out_flavor(ts.drop_last(), fl) <= out_atoms(ts.drop_last()));
            assert(0 <= out_flavor_tx(ts.last().outputs@, fl));
        }
    } else {
        assert forall|k: OutKind| 0 <= #[trigger] out_count(ts, k) <= out_atoms(ts) by {}
        assert forall|k: OutKind| 0 <= #[trigger] out_amount(ts, k) <= out_value_total(ts) by {}
        assert forall|fl: OrFlavor| 0 <= #[trigger] out_flavor(ts, fl) <= out_atoms(ts) by {}
    }
}

/// Output counts of a prefix never exceed those of the whole list.
pub proof fn lemma_out_atoms_mono(ts: Seq<TxFacts>, i: int)
    requires
        0 <= i <= ts.len(),
    ensures
        out_atoms(ts.take(i)) <= out_atoms(ts),
        out_value_total(ts.take(i)) <= out_value_total(ts),
    decreases ts.len() - i,
{
    if i == ts.len() {
        assert(ts.take(i) =~= ts);
    } else {
        lemma_out_atoms_mono(ts, i + 1);
        assert(ts.take(i + 1).drop_last() =~= ts.take(i));
        lemma_out_bounds_tx(ts.take(i + 1).last().outputs@);
    }
}

/// Payload byte totals are bounded by the script byte totals.
pub proof fn lemma_out_bytes_tx_le(os: Seq<OutputFact>, t: TxData, upto: int)
    ensures
        0 <= out_bytes_tx(os, t, upto) <= script_bytes_tx(t.outputs@),
    decreases upto,
{
    lemma_script_bytes_nonneg(t.outputs@);
    lemma_out_bytes_tx_le_take(os, t, upto);
    if upto > 0 {
        let c = if upto <= t.outputs.len() { upto } else { t.outputs.len() as int };
        lemma_script_bytes_take_le(t.outputs@, if c >= 0 { c } else { 0 });
    }
}

/// The prefix form of the payload-byte bound.
proof fn lemma_out_bytes_tx_le_take(os: Seq<OutputFact>, t: TxData, upto: int)
    ensures
        0 <= out_bytes_tx(os, t, upto) <= script_bytes_tx(t.outputs@.take(
            {
                let c = if upto <= t.outputs.len() { upto } else { t.outputs.len() as int };
                if c >= 0 { c } else { 0 }
            },
        )),
    decreases upto,
{
    if upto <= 0 {
    } else {
        lemma_out_bytes_tx_le_take(os, t, upto - 1);
        if upto - 1 < t.outputs.len() {
            assert(t.outputs@.take(upto).drop_last() =~= t.outputs@.take(upto - 1));
            if 0 <= upto - 1 < os.len() && os[upto - 1].kind == OutKind::OpReturn {
                lemma_pushed_bytes_le(t.outputs@[upto - 1].script@);
            }
            lemma_script_bytes_nonneg(t.outputs@.take(upto - 1));
        }
    }
}

proof fn lemma_script_bytes_nonneg(os: Seq<crate::model::OutputData>)
    ensures
        script_bytes_tx(os) >= 0,
    decreases os.len(),
{
    if os.len() > 0 {
        lemma_script_bytes_nonneg(os.drop_last());
    }
}

/// Byte totals over transactions are bounded by the block's script bytes.
pub proof fn lemma_out_bytes_le(ts: Seq<TxFacts>, xs: Seq<TxData>)
    requires
        ts.len() <= xs.len(),
    ensures
        0 <= out_bytes(ts, xs) <= script_bytes_total(xs.take(ts.len() as int)),
    decreases ts.len(),
{
    if ts.len() > 0 {
        lemma_out_bytes_le(ts.drop_last(), xs.take(ts.len() - 1));
        assert(xs.take(ts.len() - 1).take(ts.len() - 1) =~= xs.take(ts.len() - 1));
        assert(xs.take(ts.len() as int).drop_last() =~= xs.take(ts.len() - 1));
        let t = xs[ts.len() - 1];
        lemma_out_bytes_tx_le(ts.last().outputs@, t, ts.last().outputs@.len() as int);
        assert(xs.take(ts.len() as int).last() == t);
    }
}

/// Script bytes of an output prefix never exceed the whole.
proof fn lemma_script_bytes_take_le(os: Seq<crate::model::OutputData>, i: int)
    requires
        0 <= i <= os.len(),
    ensures
        script_bytes_tx(os.take(i)) <= script_bytes_tx(os),
    decreases os.len() - i,
{
    if i == os.len() {
        assert(os.take(i) =~= os);
    } else {
        lemma_script_bytes_take_le(os, i + 1);
        assert(os.take(i + 1).drop_last() =~= os.take(i));
    }
}

/// Script byte totals of a transaction prefix never exceed the whole.
pub proof fn lemma_script_bytes_total_mono(xs: Seq<TxData>, i: int)
    requires
        0 <= i <= xs.len(),
    ensures
        0 <= script_bytes_total(xs.take(i)) <= script_bytes_total(xs),
    decreases xs.len() - i,
{
    if i == xs.len() {
        assert(xs.take(i) =~= xs);
        lemma_script_bytes_total_nonneg(xs);
    } else {
        lemma_script_bytes_total_mono(xs, i + 1);
        assert(xs.take(i + 1).drop_last() =~= xs.take(i));
        lemma_script_bytes_nonneg(xs.take(i + 1).last().outputs@);
        lemma_script_bytes_total_nonneg(xs.take(i));
    }
}

proof fn lemma_script_bytes_total_nonneg(xs: Seq<TxData>)
    ensures
        script_bytes_total(xs) >= 0,
    decreases xs.len(),
{
    if xs.len() > 0 {
        lemma_script_bytes_total_nonneg(xs.drop_last());
        lemma_script_bytes_nonneg(xs.last().outputs@);
    }
}


impl OutputStats {
    /// Derives the output statistics of a block.
    ///
    /// Every output-fact contributes to exactly one per-kind counter and
    /// amount sum; pay-to-anchor dust, OP_RETURN flavors and payload bytes,
    /// and the coinbase transaction's own counters are tallied as the
    /// record's fields name them.
    #[verifier::rlimit(100)]
    pub fn from_block(block: &crate::model::Block, date: DateYmd, facts: &Vec<TxFacts>) -> (s:
        OutputStats)
        requires
            block.height <= 0x7fff_ffff_ffff_ffff,
            block.txdata@.len() >= 1,
            crate::classify::facts_aligned(facts@, block.txdata@),
            out_atoms(facts@) <= 0x7fff_ffff,
            out_value_total(facts@) <= 0x7fff_ffff_ffff_ffff,
            script_bytes_total(block.txdata@) <= 0x7fff_ffff_ffff_ffff,
            crate::model::total_outputs(block.txdata@) <= 0x7fff_ffff,
        ensures
            s.height == block.height,
            s.date == date,
            s.outputs_p2pk == out_count(facts@, OutKind::P2pk),
            s.outputs_p2pkh == out_count(facts@, OutKind::P2pkh),
            s.outputs_p2wpkh == out_count(facts@, OutKind::P2wpkh),
            s.outputs_p2ms == out_count(facts@, OutKind::P2ms),
            s.outputs_p2sh == out_count(facts@, OutKind::P2sh),
            s.outputs_p2wsh == out_count(facts@, OutKind::P2wsh),
            s.outputs_opreturn == out_count(facts@, OutKind::OpReturn),
            s.outputs_p2tr == out_count(facts@, OutKind::P2tr),
            s.outputs_p2a == out_count(facts@, OutKind::P2a),
            s.outputs_p2a_dust == out_dust(facts@),
            s.outputs_unknown == out_count(facts@, OutKind::Unknown),
            s.outputs_p2pk_amount == out_amount(facts@, OutKind::P2pk),
            s.outputs_p2pkh_amount == out_amount(facts@, OutKind::P2pkh),
            s.outputs_p2wpkh_amount == out_amount(facts@, OutKind::P2wpkh),
            s.outputs_p2ms_amount == out_amount(facts@, OutKind::P2ms),
            s.outputs_p2sh_amount == out_amount(facts@, OutKind::P2sh),
            s.outputs_p2wsh_amount == out_amount(facts@, OutKind::P2wsh),
            s.outputs_p2tr_amount == out_amount(facts@, OutKind::P2tr),
            s.outputs_p2a_amount == out_amount(facts@, OutKind::P2a),
            s.outputs_opreturn_amount == out_amount(facts@, OutKind::OpReturn),
            s.outputs_unknown_amount == out_amount(facts@, OutKind::Unknown),
            s.outputs_opreturn_omnilayer == out_flavor(facts@, OrFlavor::Omni),
            s.outputs_opreturn_stacks_block_commit == out_flavor(
                facts@,
                OrFlavor::StacksBlockCommit,
            ),
            s.outputs_opreturn_bip47_payment_code == out_flavor(
                facts@,
                OrFlavor::Bip47PaymentCode,
            ),
            s.outputs_opreturn_runestone == out_flavor(facts@, OrFlavor::Runestone),
            s.outputs_opreturn_coinbase_rsk == out_flavor_tx(facts@[0].outputs@, OrFlavor::RskBlock),
            s.outputs_opreturn_coinbase_coredao == out_flavor_tx(
                facts@[0].outputs@,
                OrFlavor::CoreDao,
            ),
            s.outputs_opreturn_coinbase_exsat == out_flavor_tx(facts@[0].outputs@, OrFlavor::ExSat),
            s.outputs_opreturn_coinbase_hathor == out_flavor_tx(
                facts@[0].outputs@,
                OrFlavor::HathorNetwork,
            ),
            s.outputs_opreturn_coinbase_witness_commitment == out_flavor_tx(
                facts@[0].outputs@,
                OrFlavor::WitnessCommitment,
            ),
            s.outputs_opreturn_bytes == out_bytes(facts@, block.txdata@),
            s.outputs_coinbase == block.txdata@[0].outputs@.len(),
            s.outputs_coinbase_p2pk == out_count_tx(facts@[0].outputs@, OutKind::P2pk),
            s.outputs_coinbase_p2pkh == out_count_tx(facts@[0].outputs@, OutKind::P2pkh),
            s.outputs_coinbase_p2wpkh == out_count_tx(facts@[0].outputs@, OutKind::P2wpkh),
            s.outputs_coinbase_p2ms == out_count_tx(facts@[0].outputs@, OutKind::P2ms),
            s.outputs_coinbase_p2sh == out_count_tx(facts@[0].outputs@, OutKind::P2sh),
            s.outputs_coinbase_p2wsh == out_count_tx(facts@[0].outputs@, OutKind::P2wsh),
            s.outputs_coinbase_p2tr == out_count_tx(facts@[0].outputs@, OutKind::P2tr),
            s.outputs_coinbase_opreturn == out_count_tx(facts@[0].outputs@, OutKind::OpReturn),
            s.outputs_coinbase_unknown == out_count_tx(facts@[0].outputs@, OutKind::Unknown),
    {
        let mut s = OutputStats {
            height: block.height as i64,
            date,
            outputs_p2pk: 0, outputs_p2pkh: 0, outputs_p2wpkh: 0, outputs_p2ms: 0,
            outputs_p2sh: 0, outputs_p2wsh: 0, outputs_opreturn: 0, outputs_p2tr: 0,
            outputs_p2a: 0, outputs_p2a_dust: 0, outputs_unknown: 0,
            outputs_p2pk_amount: 0, outputs_p2pkh_amount: 0, outputs_p2wpkh_amount: 0,
            outputs_p2ms_amount: 0, outputs_p2sh_amount: 0, outputs_p2wsh_amount: 0,
            outputs_p2tr_amount: 0, outputs_p2a_amount: 0, outputs_opreturn_amount: 0,
            outputs_unknown_amount: 0,
            outputs_opreturn_omnilayer: 0, outputs_opreturn_stacks_block_commit: 0,
            outputs_opreturn_bip47_payment_code: 0, outputs_opreturn_coinbase_rsk: 0,
            outputs_opreturn_coinbase_coredao: 0, outputs_opreturn_coinbase_exsat: 0,
            outputs_opreturn_coinbase_hathor: 0, outputs_opreturn_coinbase_witness_commitment: 0,
            outputs_opreturn_runestone: 0, outputs_opreturn_bytes: 0,
            outputs_coinbase: 0, outputs_coinbase_p2pk: 0, outputs_coinbase_p2pkh: 0,
            outputs_coinbase_p2wpkh: 0, outputs_coinbase_p2ms: 0, outputs_coinbase_p2sh: 0,
            outputs_coinbase_p2wsh: 0, outputs_coinbase_p2tr: 0, outputs_coinbase_opreturn: 0,
            outputs_coinbase_unknown: 0,
        };
        let n = facts.len();
        let mut t: usize = 0;
        while t < n
            invariant
                n == facts@.len(),
                0 <= t <= n,
                block.height <= 0x7fff_ffff_ffff_ffff,
                block.txdata@.len() >= 1,
                crate::classify::facts_aligned(facts@, block.txdata@),
                out_atoms(facts@) <= 0x7fff_ffff,
                out_value_total(facts@) <= 0x7fff_ffff_ffff_ffff,
                script_bytes_total(block.txdata@) <= 0x7fff_ffff_ffff_ffff,
                crate::model::total_outputs(block.txdata@) <= 0x7fff_ffff,
                s.height == block.height as i64,
                s.date == date,
                out_matches_prefix(s, facts@, block.txdata@, t as int),
                cb_matches(s, facts@, t as int),
                s.outputs_coinbase == if t >= 1 {
                    block.txdata@[0].outputs@.len() as int
                } else {
                    0int
                },
            decreases n - t,
        {
            proof {
                assert(facts@.take(t + 1).drop_last() =~= facts@.take(t as int));
                assert(block.txdata@.take(t + 1).drop_last() =~= block.txdata@.take(t as int));
                assert(block.txdata@.take(t + 1).take(t as int) =~= block.txdata@.take(t as int));
                lemma_out_bounds(facts@.take(t as int));
                lemma_out_atoms_mono(facts@, t as int);
                lemma_out_atoms_mono(facts@, t + 1);
                lemma_out_bytes_le(facts@.take(t as int), block.txdata@);
                assert(block.txdata@.take(t as int).take(t as int) =~= block.txdata@.take(
                    t as int,
                ));
                lemma_out_bytes_frame(
                    facts@.take(t as int),
                    block.txdata@,
                    block.txdata@.take(t as int),
                );
                lemma_script_bytes_total_mono(block.txdata@, t as int);
                lemma_script_bytes_total_mono(block.txdata@, t + 1);
                assert(facts@[t as int].inputs@.len() == block.txdata@[t as int].inputs@.len());
            }
            let tx = &facts[t];
            let ntx = &block.txdata[t];
            let is_cb = t == 0;
            if is_cb {
                proof {
                    crate::model::lemma_total_outputs_elem(block.txdata@, 0);
                }
                s.outputs_coinbase = ntx.outputs.len() as i32;
            }
            let no = tx.outputs.len();
            let mut j: usize = 0;
            while j < no
                invariant
                    no == tx.outputs@.len(),
                    0 <= j <= no,
                    is_cb <==> t == 0,
                    tx == facts@[t as int],
                    ntx == block.txdata@[t as int],
                    t < n,
                    n == facts@.len(),
                    block.txdata@.len() == n,
                    block.txdata@.len() >= 1,
                    tx.outputs@.len() == ntx.outputs@.len(),
                    out_atoms(facts@) <= 0x7fff_ffff,
                    out_value_total(facts@) <= 0x7fff_ffff_ffff_ffff,
                    script_bytes_total(block.txdata@) <= 0x7fff_ffff_ffff_ffff,
                    out_atoms(facts@.take(t as int)) + tx.outputs@.len() == out_atoms(
                        facts@.take(t + 1),
                    ),
                    out_atoms(facts@.take(t + 1)) <= out_atoms(facts@),
                    out_atoms(facts@.take(t as int)) >= 0,
                    out_value_total(facts@.take(t as int)) + out_value_tx(tx.outputs@)
                        == out_value_total(facts@.take(t + 1)),
                    out_value_total(facts@.take(t + 1)) <= out_value_total(facts@),
                    out_value_total(facts@.take(t as int)) >= 0,
                    out_bytes(facts@.take(t as int), block.txdata@) >= 0,
                    out_bytes(facts@.take(t as int), block.txdata@) <= script_bytes_total(
                        block.txdata@.take(t as int),
                    ),
                    script_bytes_total(block.txdata@.take(t as int)) + script_bytes_tx(
                        ntx.outputs@,
                    ) == script_bytes_total(block.txdata@.take(t + 1)),
                    script_bytes_total(block.txdata@.take(t + 1)) <= script_bytes_total(
                        block.txdata@,
                    ),
                    s.height == block.height as i64,
                    s.date == date,
                    out_matches_partial(s, facts@, block.txdata@, t as int, j as int),
                    cb_matches_partial(s, facts@, t as int, j as int),
                    s.outputs_coinbase == block.txdata@[0].outputs@.len() as int,
                decreases no - j,
            {
                proof {
                    assert(tx.outputs@.take(j + 1).drop_last() =~= tx.outputs@.take(j as int));
                    lemma_out_bounds_tx(tx.outputs@.take(j as int));
                    lemma_out_bounds(facts@.take(t as int));
                    lemma_out_value_take(tx.outputs@, j as int);
                    lemma_out_value_take(tx.outputs@, j + 1);
                    assert(tx.outputs@.take(j + 1).drop_last() =~= tx.outputs@.take(j as int));
                    lemma_out_bytes_tx_le(tx.outputs@, *ntx, j as int);
                    lemma_out_bytes_tx_le(tx.outputs@, *ntx, j + 1);
                    lemma_script_bytes_nonneg_pub(ntx.outputs@);
                }
                let o = &tx.outputs[j];
                match o.kind {
                    OutKind::P2pk => {
                        s.outputs_p2pk = s.outputs_p2pk + 1;
                        s.outputs_p2pk_amount = s.outputs_p2pk_amount + (o.value as i64);
                        if is_cb {
                            s.outputs_coinbase_p2pk = s.outputs_coinbase_p2pk + 1;
                        }
                    },
                    OutKind::P2pkh => {
                        s.outputs_p2pkh = s.outputs_p2pkh + 1;
                        s.outputs_p2pkh_amount = s.outputs_p2pkh_amount + (o.value as i64);
                        if is_cb {
                            s.outputs_coinbase_p2pkh = s.outputs_coinbase_p2pkh + 1;
                        }
                    },
                    OutKind::P2wpkh => {
                        s.outputs_p2wpkh = s.outputs_p2wpkh + 1;
                        s.outputs_p2wpkh_amount = s.outputs_p2wpkh_amount + (o.value as i64);
                        if is_cb {
                            s.outputs_coinbase_p2wpkh = s.outputs_coinbase_p2wpkh + 1;
                        }
                    },
                    OutKind::P2ms => {
                        s.outputs_p2ms = s.outputs_p2ms + 1;
                        s.outputs_p2ms_amount = s.outputs_p2ms_amount + (o.value as i64);
                        if is_cb {
                            s.outputs_coinbase_p2ms = s.outputs_coinbase_p2ms + 1;
                        }
                    },
                    OutKind::P2sh => {
                        s.outputs_p2sh = s.outputs_p2sh + 1;
                        s.outputs_p2sh_amount = s.outputs_p2sh_amount + (o.value as i64);
                        if is_cb {
                            s.outputs_coinbase_p2sh = s.outputs_coinbase_p2sh + 1;
                        }
                    },
                    OutKind::P2wsh => {
                        s.outputs_p2wsh = s.outputs_p2wsh + 1;
                        s.outputs_p2wsh_amount = s.outputs_p2wsh_amount + (o.value as i64);
                        if is_cb {
                            s.outputs_coinbase_p2wsh = s.outputs_coinbase_p2wsh + 1;
                        }
                    },
                    OutKind::P2tr => {
                        s.outputs_p2tr = s.outputs_p2tr + 1;
                        s.outputs_p2tr_amount = s.outputs_p2tr_amount + (o.value as i64);
                        if is_cb {
                            s.outputs_coinbase_p2tr = s.outputs_coinbase_p2tr + 1;
                        }
                    },
                    OutKind::P2a => {
                        s.outputs_p2a = s.outputs_p2a + 1;
                        s.outputs_p2a_amount = s.outputs_p2a_amount + (o.value as i64);
                        if o.value < crate::P2A_DUST_THRESHOLD {
                            s.outputs_p2a_dust = s.outputs_p2a_dust + 1;
                        }
                    },
                    OutKind::OpReturn => {
                        s.outputs_opreturn = s.outputs_opreturn + 1;
                        s.outputs_opreturn_amount = s.outputs_opreturn_amount + (o.value as i64);
                        if is_cb {
                            s.outputs_coinbase_opreturn = s.outputs_coinbase_opreturn + 1;
                        }
                        let data_size = opreturn_data_size(&ntx.outputs[j].script);
                        s.outputs_opreturn_bytes = s.outputs_opreturn_bytes + (data_size as i64);
                        match o.flavor {
                            Some(OrFlavor::Runestone) => {
                                s.outputs_opreturn_runestone = s.outputs_opreturn_runestone + 1;
                            },
                            Some(OrFlavor::Omni) => {
                                s.outputs_opreturn_omnilayer = s.outputs_opreturn_omnilayer + 1;
                            },
                            Some(OrFlavor::StacksBlockCommit) => {
                                s.outputs_opreturn_stacks_block_commit =
                                    s.outputs_opreturn_stacks_block_commit + 1;
                            },
                            Some(OrFlavor::Bip47PaymentCode) => {
                                s.outputs_opreturn_bip47_payment_code =
                                    s.outputs_opreturn_bip47_payment_code + 1;
                            },
                            Some(OrFlavor::RskBlock) => {
                                if is_cb {
                                    s.outputs_opreturn_coinbase_rsk =
                                        s.outputs_opreturn_coinbase_rsk + 1;
                                }
                            },
                            Some(OrFlavor::CoreDao) => {
                                if is_cb {
                                    s.outputs_opreturn_coinbase_coredao =
                                        s.outputs_opreturn_coinbase_coredao + 1;
                                }
                            },
                            Some(OrFlavor::ExSat) => {
                                if is_cb {
                                    s.outputs_opreturn_coinbase_exsat =
                                        s.outputs_opreturn_coinbase_exsat + 1;
                                }
                            },
                            Some(OrFlavor::HathorNetwork) => {
                                if is_cb {
                                    s.outputs_opreturn_coinbase_hathor =
                                        s.outputs_opreturn_coinbase_hathor + 1;
                                }
                            },
                            Some(OrFlavor::WitnessCommitment) => {
                                if is_cb {
                                    s.outputs_opreturn_coinbase_witness_commitment =
                                        s.outputs_opreturn_coinbase_witness_commitment + 1;
                                }
                            },
                            _ => {},
                        }
                    },
                    OutKind::Unknown => {
                        s.outputs_unknown = s.outputs_unknown + 1;
                        s.outputs_unknown_amount = s.outputs_unknown_amount + (o.value as i64);
                        if is_cb {
                            s.outputs_coinbase_unknown = s.outputs_coinbase_unknown + 1;
                        }
                    },
                }
                j = j + 1;
            }
            proof {
                assert(tx.outputs@.take(no as int) =~= tx.outputs@);
            }
            t = t + 1;
        }
        proof {
            assert(facts@.take(n as int) =~= facts@);
        }
        s
    }
}

/// The record's cumulative fields hold the counts of the first `t`
/// transactions.
pub open spec fn out_matches_prefix(
    s: OutputStats,
    fs: Seq<TxFacts>,
    xs: Seq<TxData>,
    t: int,
) -> bool {
    &&& s.outputs_p2pk == out_count(fs.take(t), OutKind::P2pk)
    &&& s.outputs_p2pkh == out_count(fs.take(t), OutKind::P2pkh)
    &&& s.outputs_p2wpkh == out_count(fs.take(t), OutKind::P2wpkh)
    &&& s.outputs_p2ms == out_count(fs.take(t), OutKind::P2ms)
    &&& s.outputs_p2sh == out_count(fs.take(t), OutKind::P2sh)
    &&& s.outputs_p2wsh == out_count(fs.take(t), OutKind::P2wsh)
    &&& s.outputs_opreturn == out_count(fs.take(t), OutKind::OpReturn)
    &&& s.outputs_p2tr == out_count(fs.take(t), OutKind::P2tr)
    &&& s.outputs_p2a == out_count(fs.take(t), OutKind::P2a)
    &&& s.outputs_p2a_dust == out_dust(fs.take(t))
    &&& s.outputs_unknown == out_count(fs.take(t), OutKind::Unknown)
    &&& s.outputs_p2pk_amount == out_amount(fs.take(t), OutKind::P2pk)
    &&& s.outputs_p2pkh_amount == out_amount(fs.take(t), OutKind::P2pkh)
    &&& s.outputs_p2wpkh_amount == out_amount(fs.take(t), OutKind::P2wpkh)
    &&& s.outputs_p2ms_amount == out_amount(fs.take(t), OutKind::P2ms)
    &&& s.outputs_p2sh_amount == out_amount(fs.take(t), OutKind::P2sh)
    &&& s.outputs_p2wsh_amount == out_amount(fs.take(t), OutKind::P2wsh)
    &&& s.outputs_p2tr_amount == out_amount(fs.take(t), OutKind::P2tr)
    &&& s.outputs_p2a_amount == out_amount(fs.take(t), OutKind::P2a)
    &&& s.outputs_opreturn_amount == out_amount(fs.take(t), OutKind::OpReturn)
    &&& s.outputs_unknown_amount == out_amount(fs.take(t), OutKind::Unknown)
    &&& s.outputs_opreturn_omnilayer == out_flavor(fs.take(t), OrFlavor::Omni)
    &&& s.outputs_opreturn_stacks_block_commit == out_flavor(
        fs.take(t),
        OrFlavor::StacksBlockCommit,
    )
    &&& s.outputs_opreturn_bip47_payment_code == out_flavor(fs.take(t), OrFlavor::Bip47PaymentCode)
    &&& s.outputs_opreturn_runestone == out_flavor(fs.take(t), OrFlavor::Runestone)
    &&& s.outputs_opreturn_bytes == out_bytes(fs.take(t), xs)
}

/// The same, with one transaction's first `j` outputs added on top.
pub open spec fn out_matches_partial(
    s: OutputStats,
    fs: Seq<TxFacts>,
    xs: Seq<TxData>,
    t: int,
    j: int,
) -> bool {
    let os = fs[t].outputs@;
    &&& s.outputs_p2pk == out_count(fs.take(t), OutKind::P2pk) + out_count_tx(
        os.take(j),
        OutKind::P2pk,
    )
    &&& s.outputs_p2pkh == out_count(fs.take(t), OutKind::P2pkh) + out_count_tx(
        os.take(j),
        OutKind::P2pkh,
    )
    &&& s.outputs_p2wpkh == out_count(fs.take(t), OutKind::P2wpkh) + out_count_tx(
        os.take(j),
        OutKind::P2wpkh,
    )
    &&& s.outputs_p2ms == out_count(fs.take(t), OutKind::P2ms) + out_count_tx(
        os.take(j),
        OutKind::P2ms,
    )
    &&& s.outputs_p2sh == out_count(fs.take(t), OutKind::P2sh) + out_count_tx(
        os.take(j),
        OutKind::P2sh,
    )
    &&& s.outputs_p2wsh == out_count(fs.take(t), OutKind::P2wsh) + out_count_tx(
        os.take(j),
        OutKind::P2wsh,
    )
    &&& s.outputs_opreturn == out_count(fs.take(t), OutKind::OpReturn) + out_count_tx(
        os.take(j),
        OutKind::OpReturn,
    )
    &&& s.outputs_p2tr == out_count(fs.take(t), OutKind::P2tr) + out_count_tx(
        os.take(j),
        OutKind::P2tr,
    )
    &&& s.outputs_p2a == out_count(fs.take(t), OutKind::P2a) + out_count_tx(
        os.take(j),
        OutKind::P2a,
    )
    &&& s.outputs_p2a_dust == out_dust(fs.take(t)) + out_dust_tx(os.take(j))
    &&& s.outputs_unknown == out_count(fs.take(t), OutKind::Unknown) + out_count_tx(
        os.take(j),
        OutKind::Unknown,
    )
    &&& s.outputs_p2pk_amount == out_amount(fs.take(t), OutKind::P2pk) + out_amount_tx(
        os.take(j),
        OutKind::P2pk,
    )
    &&& s.outputs_p2pkh_amount == out_amount(fs.take(t), OutKind::P2pkh) + out_amount_tx(
        os.take(j),
        OutKind::P2pkh,
    )
    &&& s.outputs_p2wpkh_amount == out_amount(fs.take(t), OutKind::P2wpkh) + out_amount_tx(
        os.take(j),
        OutKind::P2wpkh,
    )
    &&& s.outputs_p2ms_amount == out_amount(fs.take(t), OutKind::P2ms) + out_amount_tx(
        os.take(j),
        OutKind::P2ms,
    )
    &&& s.outputs_p2sh_amount == out_amount(fs.take(t), OutKind::P2sh) + out_amount_tx(
        os.take(j),
        OutKind::P2sh,
    )
    &&& s.outputs_p2wsh_amount == out_amount(fs.take(t), OutKind::P2wsh) + out_amount_tx(
        os.take(j),
        OutKind::P2wsh,
    )
    &&& s.outputs_p2tr_amount == out_amount(fs.take(t), OutKind::P2tr) + out_amount_tx(
        os.take(j),
        OutKind::P2tr,
    )
    &&& s.outputs_p2a_amount == out_amount(fs.take(t), OutKind::P2a) + out_amount_tx(
        os.take(j),
        OutKind::P2a,
    )
    &&& s.outputs_opreturn_amount == out_amount(fs.take(t), OutKind::OpReturn) + out_amount_tx(
        os.take(j),
        OutKind::OpReturn,
    )
    &&& s.outputs_unknown_amount == out_amount(fs.take(t), OutKind::Unknown) + out_amount_tx(
        os.take(j),
        OutKind::Unknown,
    )
    &&& s.outputs_opreturn_omnilayer == out_flavor(fs.take(t), OrFlavor::Omni) + out_flavor_tx(
        os.take(j),
        OrFlavor::Omni,
    )
    &&& s.outputs_opreturn_stacks_block_commit == out_flavor(fs.take(t), OrFlavor::StacksBlockCommit)
        + out_flavor_tx(os.take(j), OrFlavor::StacksBlockCommit)
    &&& s.outputs_opreturn_bip47_payment_code == out_flavor(fs.take(t), OrFlavor::Bip47PaymentCode)
        + out_flavor_tx(os.take(j), OrFlavor::Bip47PaymentCode)
    &&& s.outputs_opreturn_runestone == out_flavor(fs.take(t), OrFlavor::Runestone) + out_flavor_tx(
        os.take(j),
        OrFlavor::Runestone,
    )
    &&& s.outputs_opreturn_bytes == out_bytes(fs.take(t), xs) + out_bytes_tx(os, xs[t], j)
}

/// The coinbase-only fields hold the coinbase transaction's counts once
/// the first transaction is done.
pub open spec fn cb_matches(s: OutputStats, fs: Seq<TxFacts>, t: int) -> bool {
    let done = t >= 1;
    &&& s.outputs_coinbase_p2pk == if done { out_count_tx(fs[0].outputs@, OutKind::P2pk) } else { 0int }
    &&& s.outputs_coinbase_p2pkh == if done { out_count_tx(fs[0].outputs@, OutKind::P2pkh) } else { 0int }
    &&& s.outputs_coinbase_p2wpkh == if done { out_count_tx(fs[0].outputs@, OutKind::P2wpkh) } else { 0int }
    &&& s.outputs_coinbase_p2ms == if done { out_count_tx(fs[0].outputs@, OutKind::P2ms) } else { 0int }
    &&& s.outputs_coinbase_p2sh == if done { out_count_tx(fs[0].outputs@, OutKind::P2sh) } else { 0int }
    &&& s.outputs_coinbase_p2wsh == if done { out_count_tx(fs[0].outputs@, OutKind::P2wsh) } else { 0int }
    &&& s.outputs_coinbase_p2tr == if done { out_count_tx(fs[0].outputs@, OutKind::P2tr) } else { 0int }
    &&& s.outputs_coinbase_opreturn == if done { out_count_tx(fs[0].outputs@, OutKind::OpReturn) } else { 0int }
    &&& s.outputs_coinbase_unknown == if done { out_count_tx(fs[0].outputs@, OutKind::Unknown) } else { 0int }
    &&& s.outputs_opreturn_coinbase_rsk == if done { out_flavor_tx(fs[0].outputs@, OrFlavor::RskBlock) } else { 0int }
    &&& s.outputs_opreturn_coinbase_coredao == if done { out_flavor_tx(fs[0].outputs@, OrFlavor::CoreDao) } else { 0int }
    &&& s.outputs_opreturn_coinbase_exsat == if done { out_flavor_tx(fs[0].outputs@, OrFlavor::ExSat) } else { 0int }
    &&& s.outputs_opreturn_coinbase_hathor == if done { out_flavor_tx(fs[0].outputs@, OrFlavor::HathorNetwork) } else { 0int }
    &&& s.outputs_opreturn_coinbase_witness_commitment == if done { out_flavor_tx(fs[0].outputs@, OrFlavor::WitnessCommitment) } else { 0int }
}

/// The coinbase-only fields during the walk of transaction `t`: they carry
/// the coinbase's first `j` outputs while `t == 0`, the full coinbase
/// counts after it.
pub open spec fn cb_matches_partial(s: OutputStats, fs: Seq<TxFacts>, t: int, j: int) -> bool {
    let os = if t == 0 { fs[0].outputs@.take(j) } else { fs[0].outputs@ };
    &&& s.outputs_coinbase_p2pk == out_count_tx(os, OutKind::P2pk)
    &&& s.outputs_coinbase_p2pkh == out_count_tx(os, OutKind::P2pkh)
    &&& s.outputs_coinbase_p2wpkh == out_count_tx(os, OutKind::P2wpkh)
    &&& s.outputs_coinbase_p2ms == out_count_tx(os, OutKind::P2ms)
    &&& s.outputs_coinbase_p2sh == out_count_tx(os, OutKind::P2sh)
    &&& s.outputs_coinbase_p2wsh == out_count_tx(os, OutKind::P2wsh)
    &&& s.outputs_coinbase_p2tr == out_count_tx(os, OutKind::P2tr)
    &&& s.outputs_coinbase_opreturn == out_count_tx(os, OutKind::OpReturn)
    &&& s.outputs_coinbase_unknown == out_count_tx(os, OutKind::Unknown)
    &&& s.outputs_opreturn_coinbase_rsk == out_flavor_tx(os, OrFlavor::RskBlock)
    &&& s.outputs_opreturn_coinbase_coredao == out_flavor_tx(os, OrFlavor::CoreDao)
    &&& s.outputs_opreturn_coinbase_exsat == out_flavor_tx(os, OrFlavor::ExSat)
    &&& s.outputs_opreturn_coinbase_hathor == out_flavor_tx(os, OrFlavor::HathorNetwork)
    &&& s.outputs_opreturn_coinbase_witness_commitment == out_flavor_tx(
        os,
        OrFlavor::WitnessCommitment,
    )
}

/// Value sums of an output prefix stay within the transaction's total.
pub proof fn lemma_out_value_take(os: Seq<OutputFact>, j: int)
    requires
        0 <= j <= os.len(),
    ensures
        0 <= out_value_tx(os.take(j)) <= out_value_tx(os),
    decreases os.len() - j,
{
    if j == os.len() {
        assert(os.take(j) =~= os);
        lemma_out_bounds_tx(os);
    } else {
        lemma_out_value_take(os, j + 1);
        assert(os.take(j + 1).drop_last() =~= os.take(j));
        lemma_out_bounds_tx(os.take(j));
    }
}

/// Public form of the script-byte non-negativity fact.
pub proof fn lemma_script_bytes_nonneg_pub(os: Seq<crate::model::OutputData>)
    ensures
        script_bytes_tx(os) >= 0,
    decreases os.len(),
{
    if os.len() > 0 {
        lemma_script_bytes_nonneg_pub(os.drop_last());
    }
}

} // verus!
