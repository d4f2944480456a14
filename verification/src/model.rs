//! The block model: a decoded block as the node adapter hands it over,
//! held entirely in plain values.
//!
//! Every non-coinbase input carries a snapshot of the previous output it
//! spends (value, script type tag, confirmation height), since the engine
//! keeps no UTXO set of its own.  Raw consensus bytes are kept per
//! transaction so the engine can re-parse script data without trusting the
//! adapter's view of witnesses.

use vstd::prelude::*;

verus! {

/// Script type tag of a previous output, as the node reports it.
#[derive(Clone, Copy, Debug, PartialEq, Eq, Structural)]
pub enum PrevoutKind {
    /// Pay-to-anchor; relevant for the second-pass input classification.
    Anchor,
    /// Any other script type tag.
    Other,
}

/// A transaction input together with its prevout snapshot.
#[derive(Clone, Debug, PartialEq)]
pub struct InputData {
    /// True for the input of the coinbase transaction.
    pub coinbase: bool,
    /// Txid of the spent output, in display byte order (non-coinbase only).
    pub prev_txid: Vec<u8>,
    /// Output index of the spent output (non-coinbase only).
    pub prev_vout: u32,
    /// Value of the spent output in satoshi (non-coinbase only).
    pub prevout_value: u64,
    /// Script type tag of the spent output (non-coinbase only).
    pub prevout_kind: PrevoutKind,
    /// Height at which the spent output confirmed; 0 when it was created
    /// in the block under analysis (non-coinbase only).
    pub prevout_height: u64,
}

/// A transaction output as the node reports it.
#[derive(Clone, Debug, PartialEq)]
pub struct OutputData {
    /// Output value in satoshi.
    pub value: u64,
    /// The raw scriptPubKey bytes.
    pub script: Vec<u8>,
}

/// A transaction as the node reports it, with its raw consensus bytes.
#[derive(Clone, Debug, PartialEq)]
pub struct TxData {
    /// Raw consensus-serialized bytes, for re-parsing into script facts.
    pub raw: Vec<u8>,
    /// Txid in display byte order (32 bytes).
    pub txid: Vec<u8>,
    /// Transaction version number.
    pub version: u32,
    /// Absolute lock-time, as its consensus u32.
    pub lock_time: u32,
    /// Fee in satoshi; absent exactly for the coinbase transaction.
    pub fee: Option<u64>,
    /// Virtual size in vbytes.
    pub vsize: u64,
    /// Serialized size in bytes.
    pub size: u64,
    /// The inputs, in consensus order.
    pub inputs: Vec<InputData>,
    /// The outputs, in consensus order.
    pub outputs: Vec<OutputData>,
}

/// A decoded block, the input to the analysis engine.
#[derive(Clone, Debug, PartialEq)]
pub struct Block {
    /// Block height.
    pub height: u64,
    /// Header time, in Unix seconds.
    pub time: u32,
    /// Header version, as its consensus i32.
    pub version: i32,
    /// Header nonce.
    pub nonce: u32,
    /// Compact target bits, as unprefixed hex (ASCII bytes).
    pub bits: Vec<u8>,
    /// Serialized size of the block in bytes.
    pub size: u64,
    /// Size of the block excluding witness data.
    pub stripped_size: u64,
    /// Block weight in weight units.
    pub weight: u64,
    /// The transactions; the coinbase is always first.
    pub txdata: Vec<TxData>,
}

impl TxData {
    /// The lock-time is interpreted as a block height below this bound and
    /// as a Unix timestamp from it on.
    pub open spec fn spec_locktime_is_height(self) -> bool {
        self.lock_time < 500_000_000
    }

    /// True if the absolute lock-time is interpreted as a block height
    /// (its consensus value lies below 500 million).
    pub fn locktime_is_height(&self) -> (r: bool)
        ensures
            r == self.spec_locktime_is_height(),
    {
        self.lock_time < 500_000_000
    }
}

/// Structural bounds on a block that the node adapter always meets and
/// that keep every derived counter within its storage type: at least the
/// coinbase transaction, and totals that fit the signed column widths.
pub open spec fn block_counts_bounded(b: Block) -> bool {
    &&& b.txdata.len() >= 1
    &&& b.txdata.len() <= 0x7fff_ffff
    &&& total_inputs(b.txdata@) <= 0x7fff_ffff
    &&& total_outputs(b.txdata@) <= 0x7fff_ffff
    &&& total_output_value(b.txdata@) <= 0x7fff_ffff_ffff_ffff
    &&& total_fees(b.txdata@) <= 0x7fff_ffff_ffff_ffff
    &&& total_sizes(b.txdata@) <= 0x7fff_ffff_ffff_ffff
    &&& total_vsizes(b.txdata@) <= 0x7fff_ffff_ffff_ffff
    &&& b.height <= 0x7fff_ffff_ffff_ffff
    &&& b.size <= 0x7fff_ffff_ffff_ffff
    &&& b.stripped_size <= 0x7fff_ffff_ffff_ffff
    &&& b.weight <= 0x7fff_ffff_ffff_ffff
}

/// Total number of inputs over a list of transactions.
pub open spec fn total_inputs(txs: Seq<TxData>) -> int
    decreases txs.len(),
{
    if txs.len() == 0 {
        0
    } else {
        total_inputs(txs.drop_last()) + txs.last().inputs.len()
    }
}

/// Total number of outputs over a list of transactions.
pub open spec fn total_outputs(txs: Seq<TxData>) -> int
    decreases txs.len(),
{
    if txs.len() == 0 {
        0
    } else {
        total_outputs(txs.drop_last()) + txs.last().outputs.len()
    }
}

/// Sum of all output values over a list of transactions, in satoshi.
pub open spec fn total_output_value(txs: Seq<TxData>) -> int
    decreases txs.len(),
{
    if txs.len() == 0 {
        0
    } else {
        total_output_value(txs.drop_last()) + tx_output_value(txs.last())
    }
}

/// Sum of the output values of one transaction, in satoshi.
pub open spec fn tx_output_value(t: TxData) -> int {
    seq_value_sum(t.outputs@)
}

/// Sum of output values over a list of outputs.
pub open spec fn seq_value_sum(outs: Seq<OutputData>) -> int
    decreases outs.len(),
{
    if outs.len() == 0 {
        0
    } else {
        seq_value_sum(outs.drop_last()) + outs.last().value
    }
}

/// Sum of the recorded fees over a list of transactions (absent fees count
/// as zero), in satoshi.
pub open spec fn total_fees(txs: Seq<TxData>) -> int
    decreases txs.len(),
{
    if txs.len() == 0 {
        0
    } else {
        total_fees(txs.drop_last()) + tx_fee_or_zero(txs.last())
    }
}

/// The recorded fee of a transaction, zero when absent.
pub open spec fn tx_fee_or_zero(t: TxData) -> int {
    match t.fee {
        Some(f) => f as int,
        None => 0,
    }
}

/// Sum of the serialized sizes over a list of transactions.
pub open spec fn total_sizes(txs: Seq<TxData>) -> int
    decreases txs.len(),
{
    if txs.len() == 0 {
        0
    } else {
        total_sizes(txs.drop_last()) + txs.last().size
    }
}

/// Sum of the virtual sizes over a list of transactions.
pub open spec fn total_vsizes(txs: Seq<TxData>) -> int
    decreases txs.len(),
{
    if txs.len() == 0 {
        0
    } else {
        total_vsizes(txs.drop_last()) + txs.last().vsize
    }
}

/// Each transaction's output count stays within the block total.
pub proof fn lemma_total_outputs_elem(txs: Seq<TxData>, i: int)
    requires
        0 <= i < txs.len(),
    ensures
        txs[i].outputs.len() <= total_outputs(txs),
        total_outputs(txs) >= 0,
    decreases txs.len(),
{
    lemma_total_outputs_nonneg(txs.drop_last());
    if i == txs.len() - 1 {
    } else {
        lemma_total_outputs_elem(txs.drop_last(), i);
    }
}

proof fn lemma_total_outputs_nonneg(txs: Seq<TxData>)
    ensures
        total_outputs(txs) >= 0,
    decreases txs.len(),
{
    if txs.len() > 0 {
        lemma_total_outputs_nonneg(txs.drop_last());
    }
}

/// Each transaction's input count stays within the block total.
pub proof fn lemma_total_inputs_elem(txs: Seq<TxData>, i: int)
    requires
        0 <= i < txs.len(),
    ensures
        txs[i].inputs.len() <= total_inputs(txs),
        total_inputs(txs) >= 0,
    decreases txs.len(),
{
    lemma_total_inputs_nonneg(txs.drop_last());
    if i == txs.len() - 1 {
    } else {
        lemma_total_inputs_elem(txs.drop_last(), i);
    }
}

proof fn lemma_total_inputs_nonneg(txs: Seq<TxData>)
    ensures
        total_inputs(txs) >= 0,
    decreases txs.len(),
{
    if txs.len() > 0 {
        lemma_total_inputs_nonneg(txs.drop_last());
    }
}

} // verus!
