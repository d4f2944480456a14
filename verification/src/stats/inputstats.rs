//! Input statistics of a block: spending-pattern counts, the input-type
//! partition with its pay-to-anchor second pass, and UTXO age buckets.

use vstd::prelude::*;

use crate::caldate::DateYmd;
use crate::classify::{InKind, InputFact, TxFacts};
use crate::model::{Block, InputData, PrevoutKind, TxData};
use crate::P2A_DUST_THRESHOLD;

verus! {

/// Counts over a block's inputs.
#[derive(Clone, Copy, Debug, PartialEq)]
pub struct InputStats {
    pub height: i64,
    pub date: DateYmd,

    pub inputs_spending_legacy: i32,
    pub inputs_spending_segwit: i32,
    pub inputs_spending_taproot: i32,
    pub inputs_spending_nested_segwit: i32,
    pub inputs_spending_native_segwit: i32,
    pub inputs_spending_multisig: i32,
    pub inputs_spending_p2ms_multisig: i32,
    pub inputs_spending_p2sh_multisig: i32,
    pub inputs_spending_nested_p2wsh_multisig: i32,
    pub inputs_spending_p2wsh_multisig: i32,

    pub inputs_p2pk: i32,
    pub inputs_p2pkh: i32,
    pub inputs_nested_p2wpkh: i32,
    pub inputs_p2wpkh: i32,
    pub inputs_p2ms: i32,
    pub inputs_p2sh: i32,
    pub inputs_nested_p2wsh: i32,
    pub inputs_p2wsh: i32,
    pub inputs_coinbase: i32,
    pub inputs_witness_coinbase: i32,
    pub inputs_p2tr_keypath: i32,
    pub inputs_p2tr_scriptpath: i32,
    pub inputs_p2a: i32,
    pub inputs_p2a_dust: i32,
    pub inputs_unknown: i32,

    pub inputs_spend_in_same_block: i32,

    pub inputs_spending_prev_1_blocks: i32,
    pub inputs_spending_prev_6_blocks: i32,
    pub inputs_spending_prev_144_blocks: i32,
    pub inputs_spending_prev_2016_blocks: i32,
}

/// Number of input facts in one transaction that satisfy the predicate.
pub open spec fn fcount_tx(is: Seq<InputFact>, f: spec_fn(InputFact) -> bool) -> int
    decreases is.len(),
{
    if is.len() == 0 {
        0
    } else {
        fcount_tx(is.drop_last(), f) + if f(is.last()) {
            1int
        } else {
            0int
        }
    }
}

/// Number of input facts over a list of transactions that satisfy the
/// predicate.
pub open spec fn fcount(ts: Seq<TxFacts>, f: spec_fn(InputFact) -> bool) -> int
    decreases ts.len(),
{
    if ts.len() == 0 {
        0
    } else {
        fcount(ts.drop_last(), f) + fcount_tx(ts.last().inputs@, f)
    }
}

/// Number of node-reported inputs in one transaction that satisfy the
/// predicate.
pub open spec fn ncount_tx(is: Seq<InputData>, f: spec_fn(InputData) -> bool) -> int
    decreases is.len(),
{
    if is.len() == 0 {
        0
    } else {
        ncount_tx(is.drop_last(), f) + if f(is.last()) {
            1int
        } else {
            0int
        }
    }
}

/// Number of node-reported inputs over a list of transactions that
/// satisfy the predicate.
pub open spec fn ncount(xs: Seq<TxData>, f: spec_fn(InputData) -> bool) -> int
    decreases xs.len(),
{
    if xs.len() == 0 {
        0
    } else {
        ncount(xs.drop_last(), f) + ncount_tx(xs.last().inputs@, f)
    }
}

/// Number of input facts over a list of transactions.
pub open spec fn in_atoms(ts: Seq<TxFacts>) -> int
    decreases ts.len(),
{
    if ts.len() == 0 {
        0
    } else {
        in_atoms(ts.drop_last()) + ts.last().inputs.len()
    }
}

/// The txid appears among the block's transactions.
pub open spec fn spec_txid_in_block(txid: Seq<u8>, xs: Seq<TxData>) -> bool {
    exists|k: int| 0 <= k < xs.len() && xs[k].txid@ == txid
}

/// The input spends an output created by a transaction of this block.
pub open spec fn spec_same_block(d: InputData, xs: Seq<TxData>) -> bool {
    !d.coinbase && spec_txid_in_block(d.prev_txid@, xs)
}

/// The confirmation age of a non-coinbase input at the given height:
/// zero for same-block spends, the height difference otherwise.
pub open spec fn spec_age(d: InputData, xs: Seq<TxData>, height: int) -> int {
    if spec_txid_in_block(d.prev_txid@, xs) {
        0
    } else {
        height - d.prevout_height
    }
}

/// Predicate-count bounds per transaction.
pub proof fn lemma_fcount_tx_le(is: Seq<InputFact>)
    ensures
        forall|f: spec_fn(InputFact) -> bool| 0 <= #[trigger] fcount_tx(is, f) <= is.len(),
    decreases is.len(),
{
    if is.len() > 0 {
        lemma_fcount_tx_le(is.drop_last());
        assert forall|f: spec_fn(InputFact) -> bool| 0 <= #[trigger] fcount_tx(is, f)
            <= is.len() by {
            assert(0 <= fcount_tx(is.drop_last(), f) <= is.drop_last().len());
        }
    } else {
        assert forall|f: spec_fn(InputFact) -> bool| 0 <= #[trigger] fcount_tx(is, f)
            <= is.len() by {}
    }
}

/// Predicate-count bounds over a list of transactions.
pub proof fn lemma_fcount_le(ts: Seq<TxFacts>)
    ensures
        forall|f: spec_fn(InputFact) -> bool| 0 <= #[trigger] fcount(ts, f) <= in_atoms(ts),
    decreases ts.len(),
{
    if ts.len() > 0 {
        lemma_fcount_le(ts.drop_last());
        lemma_fcount_tx_le(ts.last().inputs@);
        assert forall|f: spec_fn(InputFact) -> bool| 0 <= #[trigger] fcount(ts, f) <= in_atoms(
            ts,
        ) by {
            assert(0 <= fcount(ts.drop_last(), f) <= in_atoms(ts.drop_last()));
            assert(0 <= fcount_tx(ts.last().inputs@, f) <= ts.last().inputs@.len());
        }
    } else {
        assert forall|f: spec_fn(InputFact) -> bool| 0 <= #[trigger] fcount(ts, f) <= in_atoms(
            ts,
        ) by {}
    }
}

/// Node-side predicate-count bounds per transaction.
pub proof fn lemma_ncount_tx_le(is: Seq<InputData>)
    ensures
        forall|f: spec_fn(InputData) -> bool| 0 <= #[trigger] ncount_tx(is, f) <= is.len(),
    decreases is.len(),
{
    if is.len() > 0 {
        lemma_ncount_tx_le(is.drop_last());
        assert forall|f: spec_fn(InputData) -> bool| 0 <= #[trigger] ncount_tx(is, f)
            <= is.len() by {
            assert(0 <= ncount_tx(is.drop_last(), f) <= is.drop_last().len());
        }
    } else {
        assert forall|f: spec_fn(InputData) -> bool| 0 <= #[trigger] ncount_tx(is, f)
            <= is.len() by {}
    }
}

/// Node-side predicate-count bounds over a list of transactions.
pub proof fn lemma_ncount_le(xs: Seq<TxData>)
    ensures
        forall|f: spec_fn(InputData) -> bool| 0 <= #[trigger] ncount(xs, f)
            <= crate::model::total_inputs(xs),
    decreases xs.len(),
{
    if xs.len() > 0 {
        lemma_ncount_le(xs.drop_last());
        lemma_ncount_tx_le(xs.last().inputs@);
        assert forall|f: spec_fn(InputData) -> bool| 0 <= #[trigger] ncount(xs, f)
            <= crate::model::total_inputs(xs) by {
            assert(0 <= ncount(xs.drop_last(), f) <= crate::model::total_inputs(xs.drop_last()));
            assert(0 <= ncount_tx(xs.last().inputs@, f) <= xs.last().inputs@.len());
        }
    } else {
        assert forall|f: spec_fn(InputData) -> bool| 0 <= #[trigger] ncount(xs, f)
            <= crate::model::total_inputs(xs) by {}
    }
}

/// Input-fact atoms of a prefix never exceed the whole.
pub proof fn lemma_in_atoms_mono(ts: Seq<TxFacts>, i: int)
    requires
        0 <= i <= ts.len(),
    ensures
        0 <= in_atoms(ts.take(i)) <= in_atoms(ts),
    decreases ts.len() - i,
{
    if i == ts.len() {
        assert(ts.take(i) =~= ts);
        lemma_in_atoms_nonneg(ts);
    } else {
        lemma_in_atoms_mono(ts, i + 1);
        assert(ts.take(i + 1).drop_last() =~= ts.take(i));
        lemma_in_atoms_nonneg(ts.take(i));
    }
}

proof fn lemma_in_atoms_nonneg(ts: Seq<TxFacts>)
    ensures
        in_atoms(ts) >= 0,
    decreases ts.len(),
{
    if ts.len() > 0 {
        lemma_in_atoms_nonneg(ts.drop_last());
    }
}

/// Node-input totals of a prefix never exceed the whole.
pub proof fn lemma_total_inputs_mono(xs: Seq<TxData>, i: int)
    requires
        0 <= i <= xs.len(),
    ensures
        0 <= crate::model::total_inputs(xs.take(i)) <= crate::model::total_inputs(xs),
    decreases xs.len() - i,
{
    lemma_ti_nonneg(xs.take(i));
    if i == xs.len() {
        assert(xs.take(i) =~= xs);
    } else {
        lemma_total_inputs_mono(xs, i + 1);
        assert(xs.take(i + 1).drop_last() =~= xs.take(i));
    }
}

proof fn lemma_ti_nonneg(xs: Seq<TxData>)
    ensures
        crate::model::total_inputs(xs) >= 0,
    decreases xs.len(),
{
    if xs.len() > 0 {
        lemma_ti_nonneg(xs.drop_last());
    }
}

/// Byte-vector equality.
pub fn bytes_eq(a: &Vec<u8>, b: &Vec<u8>) -> (r: bool)
    ensures
        r <==> a@ == b@,
{
    let n = a.len();
    if n != b.len() {
        proof {
            assert(a@.len() != b@.len());
        }
        return false;
    }
    let mut i: usize = 0;
    while i < n
        invariant
            n == a@.len(),
            n == b@.len(),
            0 <= i <= n,
            forall|k: int| 0 <= k < i ==> a@[k] == b@[k],
        decreases n - i,
    {
        if a[i] != b[i] {
            proof {
                assert(a@[i as int] != b@[i as int]);
            }
            return false;
        }
        i = i + 1;
    }
    proof {
        assert(a@ =~= b@);
    }
    true
}

/// Whether the txid belongs to one of the block's transactions.
pub fn txid_in_block(txid: &Vec<u8>, txs: &Vec<TxData>) -> (r: bool)
    ensures
        r == spec_txid_in_block(txid@, txs@),
{
    let n = txs.len();
    let mut k: usize = 0;
    while k < n
        invariant
            n == txs@.len(),
            0 <= k <= n,
            forall|x: int| 0 <= x < k ==> txs@[x].txid@ != txid@,
        decreases n - k,
    {
        if bytes_eq(&txs[k].txid, txid) {
            return true;
        }
        k = k + 1;
    }
    false
}


/// The input-fact predicates the record's fields count.
pub open spec fn p_legacy() -> spec_fn(InputFact) -> bool {
    |i: InputFact| i.kind.spec_spends_legacy()
}

pub open spec fn p_segwit() -> spec_fn(InputFact) -> bool {
    |i: InputFact| i.kind.spec_spends_segwit()
}

pub open spec fn p_taproot() -> spec_fn(InputFact) -> bool {
    |i: InputFact| i.kind.spec_spends_taproot()
}

pub open spec fn p_nested() -> spec_fn(InputFact) -> bool {
    |i: InputFact| i.kind.spec_spends_nested_segwit()
}

pub open spec fn p_native() -> spec_fn(InputFact) -> bool {
    |i: InputFact| i.kind.spec_spends_native_segwit()
}

pub open spec fn p_multisig() -> spec_fn(InputFact) -> bool {
    |i: InputFact| i.multisig
}

pub open spec fn p_multisig_kind(k: InKind) -> spec_fn(InputFact) -> bool {
    |i: InputFact| i.multisig && i.kind == k
}

/// One input-type partition class: most classes join a strict kind with
/// its lax-DER sibling; `Unknown` also covers pay-to-anchor before the
/// prevout-tag second pass.
pub open spec fn p_kind(k: InKind) -> spec_fn(InputFact) -> bool {
    |i: InputFact| match k {
        InKind::P2pk => i.kind == InKind::P2pk || i.kind == InKind::P2pkLaxDer,
        InKind::P2pkh => i.kind == InKind::P2pkh || i.kind == InKind::P2pkhLaxDer,
        InKind::P2ms => i.kind == InKind::P2ms || i.kind == InKind::P2msLaxDer,
        InKind::Unknown => i.kind == InKind::Unknown || i.kind == InKind::P2a,
        _ => i.kind == k,
    }
}

/// The node-input predicates the record's fields count.
pub open spec fn q_same_block(xs: Seq<TxData>) -> spec_fn(InputData) -> bool {
    |d: InputData| spec_same_block(d, xs)
}

pub open spec fn q_anchor() -> spec_fn(InputData) -> bool {
    |d: InputData| !d.coinbase && d.prevout_kind == PrevoutKind::Anchor
}

pub open spec fn q_anchor_dust() -> spec_fn(InputData) -> bool {
    |d: InputData| !d.coinbase && d.prevout_kind == PrevoutKind::Anchor && d.prevout_value
        < P2A_DUST_THRESHOLD
}

pub open spec fn q_age(xs: Seq<TxData>, height: int, bound: int) -> spec_fn(InputData) -> bool {
    |d: InputData| !d.coinbase && spec_age(d, xs, height) <= bound
}

/// The record's fact-derived fields hold the counts of the first `t`
/// transactions plus the partial input list, with the unknown class
/// reduced by the anchors found so far.
pub open spec fn in_fact_match(
    s: InputStats,
    fs: Seq<TxFacts>,
    t: int,
    part: Seq<InputFact>,
    anchors: int,
) -> bool {
    &&& s.inputs_spending_legacy == fcount(fs.take(t), p_legacy()) + fcount_tx(part, p_legacy())
    &&& s.inputs_spending_segwit == fcount(fs.take(t), p_segwit()) + fcount_tx(part, p_segwit())
    &&& s.inputs_spending_taproot == fcount(fs.take(t), p_taproot()) + fcount_tx(
        part,
        p_taproot(),
    )
    &&& s.inputs_spending_nested_segwit == fcount(fs.take(t), p_nested()) + fcount_tx(
        part,
        p_nested(),
    )
    &&& s.inputs_spending_native_segwit == fcount(fs.take(t), p_native()) + fcount_tx(
        part,
        p_native(),
    )
    &&& s.inputs_spending_multisig == fcount(fs.take(t), p_multisig()) + fcount_tx(
        part,
        p_multisig(),
    )
    &&& s.inputs_spending_p2ms_multisig == fcount(fs.take(t), p_multisig_kind(InKind::P2ms))
        + fcount_tx(part, p_multisig_kind(InKind::P2ms))
    &&& s.inputs_spending_p2sh_multisig == fcount(fs.take(t), p_multisig_kind(InKind::P2sh))
        + fcount_tx(part, p_multisig_kind(InKind::P2sh))
    &&& s.inputs_spending_nested_p2wsh_multisig == fcount(
        fs.take(t),
        p_multisig_kind(InKind::P2shP2wsh),
    ) + fcount_tx(part, p_multisig_kind(InKind::P2shP2wsh))
    &&& s.inputs_spending_p2wsh_multisig == fcount(fs.take(t), p_multisig_kind(InKind::P2wsh))
        + fcount_tx(part, p_multisig_kind(InKind::P2wsh))
    &&& s.inputs_p2pk == fcount(fs.take(t), p_kind(InKind::P2pk)) + fcount_tx(
        part,
        p_kind(InKind::P2pk),
    )
    &&& s.inputs_p2pkh == fcount(fs.take(t), p_kind(InKind::P2pkh)) + fcount_tx(
        part,
        p_kind(InKind::P2pkh),
    )
    &&& s.inputs_nested_p2wpkh == fcount(fs.take(t), p_kind(InKind::P2shP2wpkh)) + fcount_tx(
        part,
        p_kind(InKind::P2shP2wpkh),
    )
    &&& s.inputs_p2wpkh == fcount(fs.take(t), p_kind(InKind::P2wpkh)) + fcount_tx(
        part,
        p_kind(InKind::P2wpkh),
    )
    &&& s.inputs_p2ms == fcount(fs.take(t), p_kind(InKind::P2ms)) + fcount_tx(
        part,
        p_kind(InKind::P2ms),
    )
    &&& s.inputs_p2sh == fcount(fs.take(t), p_kind(InKind::P2sh)) + fcount_tx(
        part,
        p_kind(InKind::P2sh),
    )
    &&& s.inputs_nested_p2wsh == fcount(fs.take(t), p_kind(InKind::P2shP2wsh)) + fcount_tx(
        part,
        p_kind(InKind::P2shP2wsh),
    )
    &&& s.inputs_p2wsh == fcount(fs.take(t), p_kind(InKind::P2wsh)) + fcount_tx(
        part,
        p_kind(InKind::P2wsh),
    )
    &&& s.inputs_coinbase == fcount(fs.take(t), p_kind(InKind::Coinbase)) + fcount_tx(
        part,
        p_kind(InKind::Coinbase),
    )
    &&& s.inputs_witness_coinbase == fcount(fs.take(t), p_kind(InKind::CoinbaseWitness))
        + fcount_tx(part, p_kind(InKind::CoinbaseWitness))
    &&& s.inputs_p2tr_keypath == fcount(fs.take(t), p_kind(InKind::P2trKeypath)) + fcount_tx(
        part,
        p_kind(InKind::P2trKeypath),
    )
    &&& s.inputs_p2tr_scriptpath == fcount(fs.take(t), p_kind(InKind::P2trScriptpath))
        + fcount_tx(part, p_kind(InKind::P2trScriptpath))
    &&& s.inputs_unknown == fcount(fs.take(t), p_kind(InKind::Unknown)) + fcount_tx(
        part,
        p_kind(InKind::Unknown),
    ) - anchors
}

/// The record's node-derived fields hold the counts of the first `t`
/// transactions plus the partial input list.
pub open spec fn in_node_match(
    s: InputStats,
    xs: Seq<TxData>,
    t: int,
    part: Seq<InputData>,
    height: int,
) -> bool {
    &&& s.inputs_spend_in_same_block == ncount(xs.take(t), q_same_block(xs)) + ncount_tx(
        part,
        q_same_block(xs),
    )
    &&& s.inputs_p2a == ncount(xs.take(t), q_anchor()) + ncount_tx(part, q_anchor())
    &&& s.inputs_p2a_dust == ncount(xs.take(t), q_anchor_dust()) + ncount_tx(
        part,
        q_anchor_dust(),
    )
    &&& s.inputs_spending_prev_1_blocks == ncount(xs.take(t), q_age(xs, height, 1))
        + ncount_tx(part, q_age(xs, height, 1))
    &&& s.inputs_spending_prev_6_blocks == ncount(xs.take(t), q_age(xs, height, 6))
        + ncount_tx(part, q_age(xs, height, 6))
    &&& s.inputs_spending_prev_144_blocks == ncount(xs.take(t), q_age(xs, height, 144))
        + ncount_tx(part, q_age(xs, height, 144))
    &&& s.inputs_spending_prev_2016_blocks == ncount(xs.take(t), q_age(xs, height, 2016))
        + ncount_tx(part, q_age(xs, height, 2016))
}

/// Every prevout height of the node's inputs fits the signed column.
pub open spec fn prevout_heights_bounded(xs: Seq<TxData>) -> bool {
    forall|t: int, i: int|
        0 <= t < xs.len() && 0 <= i < xs[t].inputs@.len() ==> (#[trigger] xs[t].inputs@[i])
            .prevout_height <= 0x7fff_ffff_ffff_ffff
}

impl InputStats {
    /// Derives the input statistics of a block.
    ///
    /// Spending-pattern and input-type counts come from the script facts;
    /// the pay-to-anchor second pass and the UTXO age buckets come from the
    /// node-reported prevout snapshots, with same-block spends detected via
    /// the block's own txid set.
    #[verifier::rlimit(100)]
    pub fn from_block(block: &Block, date: DateYmd, facts: &Vec<TxFacts>) -> (s: InputStats)
        requires
            block.height <= 0x7fff_ffff_ffff_ffff,
            facts@.len() == block.txdata@.len(),
            in_atoms(facts@) <= 0x7fff_ffff,
            crate::model::total_inputs(block.txdata@) <= 0x7fff_ffff,
            prevout_heights_bounded(block.txdata@),
        ensures
            s.height == block.height,
            s.date == date,
            in_fact_match(s, facts@, facts@.len() as int, Seq::<InputFact>::empty(), ncount(
                block.txdata@,
                q_anchor(),
            )),
            in_node_match(s, block.txdata@, block.txdata@.len() as int, Seq::<
                InputData,
            >::empty(), block.height as int),
    {
        let mut s = InputStats {
            height: block.height as i64,
            date,
            inputs_spending_legacy: 0, inputs_spending_segwit: 0, inputs_spending_taproot: 0,
            inputs_spending_nested_segwit: 0, inputs_spending_native_segwit: 0,
            inputs_spending_multisig: 0, inputs_spending_p2ms_multisig: 0,
            inputs_spending_p2sh_multisig: 0, inputs_spending_nested_p2wsh_multisig: 0,
            inputs_spending_p2wsh_multisig: 0,
            inputs_p2pk: 0, inputs_p2pkh: 0, inputs_nested_p2wpkh: 0, inputs_p2wpkh: 0,
            inputs_p2ms: 0, inputs_p2sh: 0, inputs_nested_p2wsh: 0, inputs_p2wsh: 0,
            inputs_coinbase: 0, inputs_witness_coinbase: 0, inputs_p2tr_keypath: 0,
            inputs_p2tr_scriptpath: 0, inputs_p2a: 0, inputs_p2a_dust: 0, inputs_unknown: 0,
            inputs_spend_in_same_block: 0,
            inputs_spending_prev_1_blocks: 0, inputs_spending_prev_6_blocks: 0,
            inputs_spending_prev_144_blocks: 0, inputs_spending_prev_2016_blocks: 0,
        };
        let n = facts.len();
        let mut t: usize = 0;
        while t < n
            invariant
                n == facts@.len(),
                n == block.txdata@.len(),
                0 <= t <= n,
                block.height <= 0x7fff_ffff_ffff_ffff,
                in_atoms(facts@) <= 0x7fff_ffff,
                crate::model::total_inputs(block.txdata@) <= 0x7fff_ffff,
                prevout_heights_bounded(block.txdata@),
                s.height == block.height as i64,
                s.date == date,
                in_fact_match(s, facts@, t as int, Seq::<InputFact>::empty(), ncount(
                    block.txdata@.take(t as int),
                    q_anchor(),
                )),
                in_node_match(s, block.txdata@, t as int, Seq::<InputData>::empty(),
                    block.height as int),
            decreases n - t,
        {
            proof {
                assert(facts@.take(t + 1).drop_last() =~= facts@.take(t as int));
                assert(block.txdata@.take(t + 1).drop_last() =~= block.txdata@.take(t as int));
                lemma_fcount_le(facts@.take(t as int));
                lemma_in_atoms_mono(facts@, t as int);
                lemma_in_atoms_mono(facts@, t + 1);
                lemma_ncount_le(block.txdata@.take(t as int));
                lemma_total_inputs_mono(block.txdata@, t as int);
                lemma_total_inputs_mono(block.txdata@, t + 1);
            }
            let tx = &facts[t];
            let ntx = &block.txdata[t];
            let ghost anchors0 = ncount(block.txdata@.take(t as int), q_anchor());
            let ni = tx.inputs.len();
            let mut i: usize = 0;
            while i < ni
                invariant
                    ni == tx.inputs@.len(),
                    0 <= i <= ni,
                    tx == facts@[t as int],
                    t < n,
                    n == facts@.len(),
                    n == block.txdata@.len(),
                    in_atoms(facts@) <= 0x7fff_ffff,
                    crate::model::total_inputs(block.txdata@) <= 0x7fff_ffff,
                    in_atoms(facts@.take(t as int)) + tx.inputs@.len() == in_atoms(
                        facts@.take(t + 1),
                    ),
                    in_atoms(facts@.take(t + 1)) <= in_atoms(facts@),
                    in_atoms(facts@.take(t as int)) >= 0,
                    0 <= anchors0 <= crate::model::total_inputs(block.txdata@),
                    s.height == block.height as i64,
                    s.date == date,
                    in_fact_match(s, facts@, t as int, tx.inputs@.take(i as int), anchors0),
                    in_node_match(s, block.txdata@, t as int, Seq::<InputData>::empty(),
                        block.height as int),
                decreases ni - i,
            {
                proof {
                    assert(tx.inputs@.take(i + 1).drop_last() =~= tx.inputs@.take(i as int));
                    lemma_fcount_tx_le(tx.inputs@.take(i as int));
                    lemma_fcount_le(facts@.take(t as int));
                }
                let inp = &tx.inputs[i];
                let k = &inp.kind;
                if k.spends_legacy() {
                    s.inputs_spending_legacy = s.inputs_spending_legacy + 1;
                }
                if k.spends_segwit() {
                    s.inputs_spending_segwit = s.inputs_spending_segwit + 1;
                }
                if k.spends_taproot() {
                    s.inputs_spending_taproot = s.inputs_spending_taproot + 1;
                }
                if k.spends_nested_segwit() {
                    s.inputs_spending_nested_segwit = s.inputs_spending_nested_segwit + 1;
                }
                if k.spends_native_segwit() {
                    s.inputs_spending_native_segwit = s.inputs_spending_native_segwit + 1;
                }
                if inp.multisig {
                    s.inputs_spending_multisig = s.inputs_spending_multisig + 1;
                    match k {
                        InKind::P2ms => {
                            s.inputs_spending_p2ms_multisig = s.inputs_spending_p2ms_multisig + 1;
                        },
                        InKind::P2shP2wsh => {
                            s.inputs_spending_nested_p2wsh_multisig =
                                s.inputs_spending_nested_p2wsh_multisig + 1;
                        },
                        InKind::P2wsh => {
                            s.inputs_spending_p2wsh_multisig = s.inputs_spending_p2wsh_multisig
                                + 1;
                        },
                        InKind::P2sh => {
                            s.inputs_spending_p2sh_multisig = s.inputs_spending_p2sh_multisig + 1;
                        },
                        _ => {},
                    }
                }
                match k {
                    InKind::P2pk | InKind::P2pkLaxDer => {
                        s.inputs_p2pk = s.inputs_p2pk + 1;
                    },
                    InKind::P2pkh | InKind::P2pkhLaxDer => {
                        s.inputs_p2pkh = s.inputs_p2pkh + 1;
                    },
                    InKind::P2shP2wpkh => {
                        s.inputs_nested_p2wpkh = s.inputs_nested_p2wpkh + 1;
                    },
                    InKind::P2wpkh => {
                        s.inputs_p2wpkh = s.inputs_p2wpkh + 1;
                    },
                    InKind::P2ms | InKind::P2msLaxDer => {
                        s.inputs_p2ms = s.inputs_p2ms + 1;
                    },
                    InKind::P2sh => {
                        s.inputs_p2sh = s.inputs_p2sh + 1;
                    },
                    InKind::P2shP2wsh => {
                        s.inputs_nested_p2wsh = s.inputs_nested_p2wsh + 1;
                    },
                    InKind::P2wsh => {
                        s.inputs_p2wsh = s.inputs_p2wsh + 1;
                    },
                    InKind::Coinbase => {
                        s.inputs_coinbase = s.inputs_coinbase + 1;
                    },
                    InKind::CoinbaseWitness => {
                        s.inputs_witness_coinbase = s.inputs_witness_coinbase + 1;
                    },
                    InKind::P2trKeypath => {
                        s.inputs_p2tr_keypath = s.inputs_p2tr_keypath + 1;
                    },
                    InKind::P2trScriptpath => {
                        s.inputs_p2tr_scriptpath = s.inputs_p2tr_scriptpath + 1;
                    },
                    InKind::Unknown | InKind::P2a => {
                        s.inputs_unknown = s.inputs_unknown + 1;
                    },
                }
                i = i + 1;
            }
            proof {
                assert(tx.inputs@.take(ni as int) =~= tx.inputs@);
            }
            let nj = ntx.inputs.len();
            let mut j: usize = 0;
            while j < nj
                invariant
                    nj == ntx.inputs@.len(),
                    0 <= j <= nj,
                    ntx == block.txdata@[t as int],
                    t < n,
                    n == facts@.len(),
                    n == block.txdata@.len(),
                    block.height <= 0x7fff_ffff_ffff_ffff,
                    in_atoms(facts@) <= 0x7fff_ffff,
                    crate::model::total_inputs(block.txdata@) <= 0x7fff_ffff,
                    prevout_heights_bounded(block.txdata@),
                    crate::model::total_inputs(block.txdata@.take(t as int)) + ntx.inputs@.len()
                        == crate::model::total_inputs(block.txdata@.take(t + 1)),
                    crate::model::total_inputs(block.txdata@.take(t + 1))
                        <= crate::model::total_inputs(block.txdata@),
                    crate::model::total_inputs(block.txdata@.take(t as int)) >= 0,
                    s.height == block.height as i64,
                    s.date == date,
                    in_fact_match(s, facts@, t + 1, Seq::<InputFact>::empty(), ncount(
                        block.txdata@.take(t as int),
                        q_anchor(),
                    ) + ncount_tx(ntx.inputs@.take(j as int), q_anchor())),
                    in_node_match(s, block.txdata@, t as int, ntx.inputs@.take(j as int),
                        block.height as int),
                decreases nj - j,
            {
                proof {
                    assert(ntx.inputs@.take(j + 1).drop_last() =~= ntx.inputs@.take(j as int));
                    lemma_ncount_tx_le(ntx.inputs@.take(j as int));
                    lemma_ncount_le(block.txdata@.take(t as int));
                    lemma_fcount_le(facts@.take(t + 1));
                    lemma_in_atoms_mono(facts@, t + 1);
                    assert(block.txdata@[t as int].inputs@[j as int] == ntx.inputs@[j as int]);
                }
                let d = &ntx.inputs[j];
                if !d.coinbase {
                    let same_block = txid_in_block(&d.prev_txid, &block.txdata);
                    if same_block {
                        s.inputs_spend_in_same_block = s.inputs_spend_in_same_block + 1;
                    }
                    if matches!(d.prevout_kind, PrevoutKind::Anchor) {
                        s.inputs_p2a = s.inputs_p2a + 1;
                        s.inputs_unknown = s.inputs_unknown - 1;
                        if d.prevout_value < P2A_DUST_THRESHOLD {
                            s.inputs_p2a_dust = s.inputs_p2a_dust + 1;
                        }
                    }
                    let age: i64 = if same_block {
                        0
                    } else {
                        (block.height as i64) - (d.prevout_height as i64)
                    };
                    if age <= 1 {
                        s.inputs_spending_prev_1_blocks = s.inputs_spending_prev_1_blocks + 1;
                    }
                    if age <= 6 {
                        s.inputs_spending_prev_6_blocks = s.inputs_spending_prev_6_blocks + 1;
                    }
                    if age <= 144 {
                        s.inputs_spending_prev_144_blocks = s.inputs_spending_prev_144_blocks + 1;
                    }
                    if age <= 2016 {
                        s.inputs_spending_prev_2016_blocks = s.inputs_spending_prev_2016_blocks
                            + 1;
                    }
                }
                j = j + 1;
            }
            proof {
                assert(ntx.inputs@.take(nj as int) =~= ntx.inputs@);
            }
            t = t + 1;
        }
        proof {
            assert(facts@.take(n as int) =~= facts@);
            assert(block.txdata@.take(n as int) =~= block.txdata@);
        }
        s
    }
}

} // verus!
