//! Public-key and signature statistics of a block.

use vstd::prelude::*;

use crate::caldate::DateYmd;
use crate::classify::{InputFact, OutputFact, SigFact, TxFacts, sig_fact_wf, tx_facts_wf};

verus! {

/// Counts of the pubkeys and signatures found in a block's scripts.
#[derive(Clone, Copy, Debug, PartialEq)]
pub struct ScriptStats {
    pub height: i64,
    pub date: DateYmd,

    pub pubkeys: i32,
    pub pubkeys_compressed: i32,
    pub pubkeys_uncompressed: i32,
    pub pubkeys_compressed_inputs: i32,
    pub pubkeys_uncompressed_inputs: i32,
    pub pubkeys_compressed_outputs: i32,
    pub pubkeys_uncompressed_outputs: i32,

    pub sigs_schnorr: i32,
    pub sigs_ecdsa: i32,
    pub sigs_ecdsa_not_strict_der: i32,
    pub sigs_ecdsa_strict_der: i32,

    pub sigs_ecdsa_length_less_70byte: i32,
    pub sigs_ecdsa_length_70byte: i32,
    pub sigs_ecdsa_length_71byte: i32,
    pub sigs_ecdsa_length_72byte: i32,
    pub sigs_ecdsa_length_73byte: i32,
    pub sigs_ecdsa_length_74byte: i32,
    pub sigs_ecdsa_length_75byte_or_more: i32,

    pub sigs_ecdsa_low_r: i32,
    pub sigs_ecdsa_high_r: i32,
    pub sigs_ecdsa_low_s: i32,
    pub sigs_ecdsa_high_s: i32,
    pub sigs_ecdsa_high_rs: i32,
    pub sigs_ecdsa_low_rs: i32,
    pub sigs_ecdsa_low_r_high_s: i32,
    pub sigs_ecdsa_high_r_low_s: i32,

    pub sigs_sighashes: i32,
    pub sigs_sighash_all: i32,
    pub sigs_sighash_none: i32,
    pub sigs_sighash_single: i32,
    pub sigs_sighash_all_acp: i32,
    pub sigs_sighash_none_acp: i32,
    pub sigs_sighash_single_acp: i32,
}

/// The same counts as mathematical integers, for specification.
pub ghost struct ScriptCounts {
    pub pubkeys: int,
    pub pubkeys_compressed: int,
    pub pubkeys_uncompressed: int,
    pub pubkeys_compressed_inputs: int,
    pub pubkeys_uncompressed_inputs: int,
    pub pubkeys_compressed_outputs: int,
    pub pubkeys_uncompressed_outputs: int,
    pub sigs_schnorr: int,
    pub sigs_ecdsa: int,
    pub sigs_ecdsa_not_strict_der: int,
    pub sigs_ecdsa_strict_der: int,
    pub sigs_ecdsa_length_less_70byte: int,
    pub sigs_ecdsa_length_70byte: int,
    pub sigs_ecdsa_length_71byte: int,
    pub sigs_ecdsa_length_72byte: int,
    pub sigs_ecdsa_length_73byte: int,
    pub sigs_ecdsa_length_74byte: int,
    pub sigs_ecdsa_length_75byte_or_more: int,
    pub sigs_ecdsa_low_r: int,
    pub sigs_ecdsa_high_r: int,
    pub sigs_ecdsa_low_s: int,
    pub sigs_ecdsa_high_s: int,
    pub sigs_ecdsa_high_rs: int,
    pub sigs_ecdsa_low_rs: int,
    pub sigs_ecdsa_low_r_high_s: int,
    pub sigs_ecdsa_high_r_low_s: int,
    pub sigs_sighashes: int,
    pub sigs_sighash_all: int,
    pub sigs_sighash_none: int,
    pub sigs_sighash_single: int,
    pub sigs_sighash_all_acp: int,
    pub sigs_sighash_none_acp: int,
    pub sigs_sighash_single_acp: int,
}

/// The all-zero count.
pub open spec fn sc_zero() -> ScriptCounts {
    ScriptCounts {
        pubkeys: 0, pubkeys_compressed: 0, pubkeys_uncompressed: 0,
        pubkeys_compressed_inputs: 0, pubkeys_uncompressed_inputs: 0,
        pubkeys_compressed_outputs: 0, pubkeys_uncompressed_outputs: 0,
        sigs_schnorr: 0, sigs_ecdsa: 0, sigs_ecdsa_not_strict_der: 0, sigs_ecdsa_strict_der: 0,
        sigs_ecdsa_length_less_70byte: 0, sigs_ecdsa_length_70byte: 0,
        sigs_ecdsa_length_71byte: 0, sigs_ecdsa_length_72byte: 0, sigs_ecdsa_length_73byte: 0,
        sigs_ecdsa_length_74byte: 0, sigs_ecdsa_length_75byte_or_more: 0,
        sigs_ecdsa_low_r: 0, sigs_ecdsa_high_r: 0, sigs_ecdsa_low_s: 0, sigs_ecdsa_high_s: 0,
        sigs_ecdsa_high_rs: 0, sigs_ecdsa_low_rs: 0, sigs_ecdsa_low_r_high_s: 0,
        sigs_ecdsa_high_r_low_s: 0, sigs_sighashes: 0, sigs_sighash_all: 0,
        sigs_sighash_none: 0, sigs_sighash_single: 0, sigs_sighash_all_acp: 0,
        sigs_sighash_none_acp: 0, sigs_sighash_single_acp: 0,
    }
}

/// Fieldwise sum of two counts.
pub open spec fn sc_add(a: ScriptCounts, b: ScriptCounts) -> ScriptCounts {
    ScriptCounts {
        pubkeys: a.pubkeys + b.pubkeys,
        pubkeys_compressed: a.pubkeys_compressed + b.pubkeys_compressed,
        pubkeys_uncompressed: a.pubkeys_uncompressed + b.pubkeys_uncompressed,
        pubkeys_compressed_inputs: a.pubkeys_compressed_inputs + b.pubkeys_compressed_inputs,
        pubkeys_uncompressed_inputs: a.pubkeys_uncompressed_inputs + b.pubkeys_uncompressed_inputs,
        pubkeys_compressed_outputs: a.pubkeys_compressed_outputs + b.pubkeys_compressed_outputs,
        pubkeys_uncompressed_outputs: a.pubkeys_uncompressed_outputs
            + b.pubkeys_uncompressed_outputs,
        sigs_schnorr: a.sigs_schnorr + b.sigs_schnorr,
        sigs_ecdsa: a.sigs_ecdsa + b.sigs_ecdsa,
        sigs_ecdsa_not_strict_der: a.sigs_ecdsa_not_strict_der + b.sigs_ecdsa_not_strict_der,
        sigs_ecdsa_strict_der: a.sigs_ecdsa_strict_der + b.sigs_ecdsa_strict_der,
        sigs_ecdsa_length_less_70byte: a.sigs_ecdsa_length_less_70byte
            + b.sigs_ecdsa_length_less_70byte,
        sigs_ecdsa_length_70byte: a.sigs_ecdsa_length_70byte + b.sigs_ecdsa_length_70byte,
        sigs_ecdsa_length_71byte: a.sigs_ecdsa_length_71byte + b.sigs_ecdsa_length_71byte,
        sigs_ecdsa_length_72byte: a.sigs_ecdsa_length_72byte + b.sigs_ecdsa_length_72byte,
        sigs_ecdsa_length_73byte: a.sigs_ecdsa_length_73byte + b.sigs_ecdsa_length_73byte,
        sigs_ecdsa_length_74byte: a.sigs_ecdsa_length_74byte + b.sigs_ecdsa_length_74byte,
        sigs_ecdsa_length_75byte_or_more: a.sigs_ecdsa_length_75byte_or_more
            + b.sigs_ecdsa_length_75byte_or_more,
        sigs_ecdsa_low_r: a.sigs_ecdsa_low_r + b.sigs_ecdsa_low_r,
        sigs_ecdsa_high_r: a.sigs_ecdsa_high_r + b.sigs_ecdsa_high_r,
        sigs_ecdsa_low_s: a.sigs_ecdsa_low_s + b.sigs_ecdsa_low_s,
        sigs_ecdsa_high_s: a.sigs_ecdsa_high_s + b.sigs_ecdsa_high_s,
        sigs_ecdsa_high_rs: a.sigs_ecdsa_high_rs + b.sigs_ecdsa_high_rs,
        sigs_ecdsa_low_rs: a.sigs_ecdsa_low_rs + b.sigs_ecdsa_low_rs,
        sigs_ecdsa_low_r_high_s: a.sigs_ecdsa_low_r_high_s + b.sigs_ecdsa_low_r_high_s,
        sigs_ecdsa_high_r_low_s: a.sigs_ecdsa_high_r_low_s + b.sigs_ecdsa_high_r_low_s,
        sigs_sighashes: a.sigs_sighashes + b.sigs_sighashes,
        sigs_sighash_all: a.sigs_sighash_all + b.sigs_sighash_all,
        sigs_sighash_none: a.sigs_sighash_none + b.sigs_sighash_none,
        sigs_sighash_single: a.sigs_sighash_single + b.sigs_sighash_single,
        sigs_sighash_all_acp: a.sigs_sighash_all_acp + b.sigs_sighash_all_acp,
        sigs_sighash_none_acp: a.sigs_sighash_none_acp + b.sigs_sighash_none_acp,
        sigs_sighash_single_acp: a.sigs_sighash_single_acp + b.sigs_sighash_single_acp,
    }
}

/// Contribution of one public key: `in_input` tells input from output
/// origin, `compressed` its form.
pub open spec fn sc_pubkey(compressed: bool, in_input: bool) -> ScriptCounts {
    ScriptCounts {
        pubkeys: 1,
        pubkeys_compressed: if compressed { 1int } else { 0int },
        pubkeys_uncompressed: if compressed { 0int } else { 1int },
        pubkeys_compressed_inputs: if compressed && in_input { 1int } else { 0int },
        pubkeys_uncompressed_inputs: if !compressed && in_input { 1int } else { 0int },
        pubkeys_compressed_outputs: if compressed && !in_input { 1int } else { 0int },
        pubkeys_uncompressed_outputs: if !compressed && !in_input { 1int } else { 0int },
        ..sc_zero()
    }
}

/// Contribution of one signature.
pub open spec fn sc_sig(s: SigFact) -> ScriptCounts {
    if s.schnorr {
        ScriptCounts { sigs_schnorr: 1, ..sc_zero() }
    } else {
        ScriptCounts {
            sigs_ecdsa: 1,
            sigs_ecdsa_strict_der: if s.strict_der { 1int } else { 0int },
            sigs_ecdsa_not_strict_der: if s.strict_der { 0int } else { 1int },
            sigs_ecdsa_length_less_70byte: if s.length <= 69 { 1int } else { 0int },
            sigs_ecdsa_length_70byte: if s.length == 70 { 1int } else { 0int },
            sigs_ecdsa_length_71byte: if s.length == 71 { 1int } else { 0int },
            sigs_ecdsa_length_72byte: if s.length == 72 { 1int } else { 0int },
            sigs_ecdsa_length_73byte: if s.length == 73 { 1int } else { 0int },
            sigs_ecdsa_length_74byte: if s.length == 74 { 1int } else { 0int },
            sigs_ecdsa_length_75byte_or_more: if s.length >= 75 { 1int } else { 0int },
            sigs_ecdsa_low_r: if s.low_r { 1int } else { 0int },
            sigs_ecdsa_high_r: if s.low_r { 0int } else { 1int },
            sigs_ecdsa_low_s: if s.low_s { 1int } else { 0int },
            sigs_ecdsa_high_s: if s.low_s { 0int } else { 1int },
            sigs_ecdsa_low_rs: if s.low_r && s.low_s { 1int } else { 0int },
            sigs_ecdsa_high_rs: if !s.low_r && !s.low_s { 1int } else { 0int },
            sigs_ecdsa_low_r_high_s: if s.low_r && !s.low_s { 1int } else { 0int },
            sigs_ecdsa_high_r_low_s: if !s.low_r && s.low_s { 1int } else { 0int },
            sigs_sighashes: 1,
            sigs_sighash_all: if s.sighash == 0x01 { 1int } else { 0int },
            sigs_sighash_none: if s.sighash == 0x02 { 1int } else { 0int },
            sigs_sighash_single: if s.sighash == 0x03 { 1int } else { 0int },
            sigs_sighash_all_acp: if s.sighash == 0x81 { 1int } else { 0int },
            sigs_sighash_none_acp: if s.sighash == 0x82 { 1int } else { 0int },
            sigs_sighash_single_acp: if s.sighash == 0x83 { 1int } else { 0int },
            ..sc_zero()
        }
    }
}

/// Counts over a list of pubkey compressedness flags.
pub open spec fn sc_pubs(ps: Seq<bool>, in_input: bool) -> ScriptCounts
    decreases ps.len(),
{
    if ps.len() == 0 {
        sc_zero()
    } else {
        sc_add(sc_pubs(ps.drop_last(), in_input), sc_pubkey(ps.last(), in_input))
    }
}

/// Counts over a list of signatures.
pub open spec fn sc_sigs(ss: Seq<SigFact>) -> ScriptCounts
    decreases ss.len(),
{
    if ss.len() == 0 {
        sc_zero()
    } else {
        sc_add(sc_sigs(ss.drop_last()), sc_sig(ss.last()))
    }
}

/// Counts contributed by one input.
pub open spec fn sc_input(i: InputFact) -> ScriptCounts {
    sc_add(sc_pubs(i.pubkeys_compressed@, true), sc_sigs(i.sigs@))
}

/// Counts over a list of inputs.
pub open spec fn sc_inputs(is: Seq<InputFact>) -> ScriptCounts
    decreases is.len(),
{
    if is.len() == 0 {
        sc_zero()
    } else {
        sc_add(sc_inputs(is.drop_last()), sc_input(is.last()))
    }
}

/// Counts over a list of outputs.
pub open spec fn sc_outputs(os: Seq<OutputFact>) -> ScriptCounts
    decreases os.len(),
{
    if os.len() == 0 {
        sc_zero()
    } else {
        sc_add(sc_outputs(os.drop_last()), sc_pubs(os.last().pubkeys_compressed@, false))
    }
}

/// Counts contributed by one transaction.
pub open spec fn sc_tx(t: TxFacts) -> ScriptCounts {
    sc_add(sc_inputs(t.inputs@), sc_outputs(t.outputs@))
}

/// Counts over a list of transactions.
pub open spec fn sc_txs(ts: Seq<TxFacts>) -> ScriptCounts
    decreases ts.len(),
{
    if ts.len() == 0 {
        sc_zero()
    } else {
        sc_add(sc_txs(ts.drop_last()), sc_tx(ts.last()))
    }
}

/// Number of pubkey and signature entries in one transaction's facts.
pub open spec fn atoms_inputs(is: Seq<InputFact>) -> int
    decreases is.len(),
{
    if is.len() == 0 {
        0
    } else {
        atoms_inputs(is.drop_last()) + is.last().pubkeys_compressed.len()
            + is.last().sigs.len()
    }
}

/// Number of pubkey entries in a transaction's outputs.
pub open spec fn atoms_outputs(os: Seq<OutputFact>) -> int
    decreases os.len(),
{
    if os.len() == 0 {
        0
    } else {
        atoms_outputs(os.drop_last()) + os.last().pubkeys_compressed.len()
    }
}

/// Number of pubkey and signature entries in a list of transactions.
pub open spec fn script_atoms(ts: Seq<TxFacts>) -> int
    decreases ts.len(),
{
    if ts.len() == 0 {
        0
    } else {
        script_atoms(ts.drop_last()) + atoms_inputs(ts.last().inputs@) + atoms_outputs(
            ts.last().outputs@,
        )
    }
}

/// Every field of the counts lies between 0 and the bound.
pub open spec fn sc_le(c: ScriptCounts, k: int) -> bool {
    &&& 0 <= c.pubkeys <= k
    &&& 0 <= c.pubkeys_compressed <= k
    &&& 0 <= c.pubkeys_uncompressed <= k
    &&& 0 <= c.pubkeys_compressed_inputs <= k
    &&& 0 <= c.pubkeys_uncompressed_inputs <= k
    &&& 0 <= c.pubkeys_compressed_outputs <= k
    &&& 0 <= c.pubkeys_uncompressed_outputs <= k
    &&& 0 <= c.sigs_schnorr <= k
    &&& 0 <= c.sigs_ecdsa <= k
    &&& 0 <= c.sigs_ecdsa_not_strict_der <= k
    &&& 0 <= c.sigs_ecdsa_strict_der <= k
    &&& 0 <= c.sigs_ecdsa_length_less_70byte <= k
    &&& 0 <= c.sigs_ecdsa_length_70byte <= k
    &&& 0 <= c.sigs_ecdsa_length_71byte <= k
    &&& 0 <= c.sigs_ecdsa_length_72byte <= k
    &&& 0 <= c.sigs_ecdsa_length_73byte <= k
    &&& 0 <= c.sigs_ecdsa_length_74byte <= k
    &&& 0 <= c.sigs_ecdsa_length_75byte_or_more <= k
    &&& 0 <= c.sigs_ecdsa_low_r <= k
    &&& 0 <= c.sigs_ecdsa_high_r <= k
    &&& 0 <= c.sigs_ecdsa_low_s <= k
    &&& 0 <= c.sigs_ecdsa_high_s <= k
    &&& 0 <= c.sigs_ecdsa_high_rs <= k
    &&& 0 <= c.sigs_ecdsa_low_rs <= k
    &&& 0 <= c.sigs_ecdsa_low_r_high_s <= k
    &&& 0 <= c.sigs_ecdsa_high_r_low_s <= k
    &&& 0 <= c.sigs_sighashes <= k
    &&& 0 <= c.sigs_sighash_all <= k
    &&& 0 <= c.sigs_sighash_none <= k
    &&& 0 <= c.sigs_sighash_single <= k
    &&& 0 <= c.sigs_sighash_all_acp <= k
    &&& 0 <= c.sigs_sighash_none_acp <= k
    &&& 0 <= c.sigs_sighash_single_acp <= k
}

/// The exec record holds exactly these counts.
pub open spec fn sc_matches(s: ScriptStats, c: ScriptCounts) -> bool {
    &&& s.pubkeys == c.pubkeys
    &&& s.pubkeys_compressed == c.pubkeys_compressed
    &&& s.pubkeys_uncompressed == c.pubkeys_uncompressed
    &&& s.pubkeys_compressed_inputs == c.pubkeys_compressed_inputs
    &&& s.pubkeys_uncompressed_inputs == c.pubkeys_uncompressed_inputs
    &&& s.pubkeys_compressed_outputs == c.pubkeys_compressed_outputs
    &&& s.pubkeys_uncompressed_outputs == c.pubkeys_uncompressed_outputs
    &&& s.sigs_schnorr == c.sigs_schnorr
    &&& s.sigs_ecdsa == c.sigs_ecdsa
    &&& s.sigs_ecdsa_not_strict_der == c.sigs_ecdsa_not_strict_der
    &&& s.sigs_ecdsa_strict_der == c.sigs_ecdsa_strict_der
    &&& s.sigs_ecdsa_length_less_70byte == c.sigs_ecdsa_length_less_70byte
    &&& s.sigs_ecdsa_length_70byte == c.sigs_ecdsa_length_70byte
    &&& s.sigs_ecdsa_length_71byte == c.sigs_ecdsa_length_71byte
    &&& s.sigs_ecdsa_length_72byte == c.sigs_ecdsa_length_72byte
    &&& s.sigs_ecdsa_length_73byte == c.sigs_ecdsa_length_73byte
    &&& s.sigs_ecdsa_length_74byte == c.sigs_ecdsa_length_74byte
    &&& s.sigs_ecdsa_length_75byte_or_more == c.sigs_ecdsa_length_75byte_or_more
    &&& s.sigs_ecdsa_low_r == c.sigs_ecdsa_low_r
    &&& s.sigs_ecdsa_high_r == c.sigs_ecdsa_high_r
    &&& s.sigs_ecdsa_low_s == c.sigs_ecdsa_low_s
    &&& s.sigs_ecdsa_high_s == c.sigs_ecdsa_high_s
    &&& s.sigs_ecdsa_high_rs == c.sigs_ecdsa_high_rs
    &&& s.sigs_ecdsa_low_rs == c.sigs_ecdsa_low_rs
    &&& s.sigs_ecdsa_low_r_high_s == c.sigs_ecdsa_low_r_high_s
    &&& s.sigs_ecdsa_high_r_low_s == c.sigs_ecdsa_high_r_low_s
    &&& s.sigs_sighashes == c.sigs_sighashes
    &&& s.sigs_sighash_all == c.sigs_sighash_all
    &&& s.sigs_sighash_none == c.sigs_sighash_none
    &&& s.sigs_sighash_single == c.sigs_sighash_single
    &&& s.sigs_sighash_all_acp == c.sigs_sighash_all_acp
    &&& s.sigs_sighash_none_acp == c.sigs_sighash_none_acp
    &&& s.sigs_sighash_single_acp == c.sigs_sighash_single_acp
}

/// Counts over a pubkey list stay within its length.
proof fn lemma_sc_pubs_le(ps: Seq<bool>, in_input: bool)
    ensures
        sc_le(sc_pubs(ps, in_input), ps.len() as int),
    decreases ps.len(),
{
    if ps.len() > 0 {
        lemma_sc_pubs_le(ps.drop_last(), in_input);
    }
}

/// Counts over a signature list stay within its length.
proof fn lemma_sc_sigs_le(ss: Seq<SigFact>)
    ensures
        sc_le(sc_sigs(ss), ss.len() as int),
    decreases ss.len(),
{
    if ss.len() > 0 {
        lemma_sc_sigs_le(ss.drop_last());
    }
}

/// Counts over an input list stay within its atom count.
proof fn lemma_sc_inputs_le(is: Seq<InputFact>)
    ensures
        sc_le(sc_inputs(is), atoms_inputs(is)),
    decreases is.len(),
{
    if is.len() > 0 {
        lemma_sc_inputs_le(is.drop_last());
        lemma_sc_pubs_le(is.last().pubkeys_compressed@, true);
        lemma_sc_sigs_le(is.last().sigs@);
    }
}

/// Counts over an output list stay within its atom count.
proof fn lemma_sc_outputs_le(os: Seq<OutputFact>)
    ensures
        sc_le(sc_outputs(os), atoms_outputs(os)),
    decreases os.len(),
{
    if os.len() > 0 {
        lemma_sc_outputs_le(os.drop_last());
        lemma_sc_pubs_le(os.last().pubkeys_compressed@, false);
    }
}

/// Counts over a transaction list stay within its atom count.
pub proof fn lemma_sc_txs_le(ts: Seq<TxFacts>)
    ensures
        sc_le(sc_txs(ts), script_atoms(ts)),
    decreases ts.len(),
{
    if ts.len() > 0 {
        lemma_sc_txs_le(ts.drop_last());
        lemma_sc_inputs_le(ts.last().inputs@);
        lemma_sc_outputs_le(ts.last().outputs@);
    }
}

/// Atom counts of a prefix never exceed those of the whole list.
pub proof fn lemma_script_atoms_mono(ts: Seq<TxFacts>, i: int)
    requires
        0 <= i <= ts.len(),
    ensures
        0 <= script_atoms(ts.take(i)) <= script_atoms(ts),
    decreases ts.len() - i,
{
    if i == ts.len() {
        assert(ts.take(i) =~= ts);
        lemma_script_atoms_nonneg(ts);
    } else {
        lemma_script_atoms_mono(ts, i + 1);
        lemma_script_atoms_nonneg(ts.take(i));
        assert(ts.take(i + 1).drop_last() =~= ts.take(i));
        lemma_atoms_inputs_nonneg(ts.take(i + 1).last().inputs@);
        lemma_atoms_outputs_nonneg(ts.take(i + 1).last().outputs@);
    }
}

proof fn lemma_script_atoms_nonneg(ts: Seq<TxFacts>)
    ensures
        script_atoms(ts) >= 0,
    decreases ts.len(),
{
    if ts.len() > 0 {
        lemma_script_atoms_nonneg(ts.drop_last());
        lemma_atoms_inputs_nonneg(ts.last().inputs@);
        lemma_atoms_outputs_nonneg(ts.last().outputs@);
    }
}

proof fn lemma_atoms_inputs_nonneg(is: Seq<InputFact>)
    ensures
        atoms_inputs(is) >= 0,
    decreases is.len(),
{
    if is.len() > 0 {
        lemma_atoms_inputs_nonneg(is.drop_last());
    }
}

proof fn lemma_atoms_outputs_nonneg(os: Seq<OutputFact>)
    ensures
        atoms_outputs(os) >= 0,
    decreases os.len(),
{
    if os.len() > 0 {
        lemma_atoms_outputs_nonneg(os.drop_last());
    }
}

impl ScriptStats {
    /// Tallies one pubkey list into the record.
    fn tally_pubs(&mut self, ps: &Vec<bool>, in_input: bool)
        requires
            sc_le_stats(*old(self), 0x7fff_ffff - ps@.len()),
        ensures
            sc_shifted(*old(self), *final(self), sc_pubs(ps@, in_input)),
    {
        let n = ps.len();
        let mut i: usize = 0;
        while i < n
            invariant
                n == ps@.len(),
                0 <= i <= n,
                sc_le_stats(*old(self), 0x7fff_ffff - n),
                sc_shifted(*old(self), *self, sc_pubs(ps@.take(i as int), in_input)),
            decreases n - i,
        {
            proof {
                assert(ps@.take(i + 1).drop_last() =~= ps@.take(i as int));
                lemma_sc_pubs_le(ps@.take(i as int), in_input);
            }
            let compressed = ps[i];
            self.pubkeys = self.pubkeys + 1;
            if compressed {
                self.pubkeys_compressed = self.pubkeys_compressed + 1;
                if in_input {
                    self.pubkeys_compressed_inputs = self.pubkeys_compressed_inputs + 1;
                } else {
                    self.pubkeys_compressed_outputs = self.pubkeys_compressed_outputs + 1;
                }
            } else {
                self.pubkeys_uncompressed = self.pubkeys_uncompressed + 1;
                if in_input {
                    self.pubkeys_uncompressed_inputs = self.pubkeys_uncompressed_inputs + 1;
                } else {
                    self.pubkeys_uncompressed_outputs = self.pubkeys_uncompressed_outputs + 1;
                }
            }
            i = i + 1;
        }
        proof {
            assert(ps@.take(n as int) =~= ps@);
        }
    }

    /// Tallies one signature list into the record.
    #[verifier::rlimit(50)]
    fn tally_sigs(&mut self, ss: &Vec<SigFact>)
        requires
            sc_le_stats(*old(self), 0x7fff_ffff - ss@.len()),
            forall|j: int| 0 <= j < ss@.len() ==> sig_fact_wf(#[trigger] ss@[j]),
        ensures
            sc_shifted(*old(self), *final(self), sc_sigs(ss@)),
    {
        let n = ss.len();
        let mut i: usize = 0;
        while i < n
            invariant
                n == ss@.len(),
                0 <= i <= n,
                sc_le_stats(*old(self), 0x7fff_ffff - n),
                forall|j: int| 0 <= j < ss@.len() ==> sig_fact_wf(#[trigger] ss@[j]),
                sc_shifted(*old(self), *self, sc_sigs(ss@.take(i as int))),
            decreases n - i,
        {
            proof {
                assert(ss@.take(i + 1).drop_last() =~= ss@.take(i as int));
                lemma_sc_sigs_le(ss@.take(i as int));
            }
            let s = &ss[i];
            if s.schnorr {
                self.sigs_schnorr = self.sigs_schnorr + 1;
            } else {
                self.sigs_ecdsa = self.sigs_ecdsa + 1;
                if s.strict_der {
                    self.sigs_ecdsa_strict_der = self.sigs_ecdsa_strict_der + 1;
                } else {
                    self.sigs_ecdsa_not_strict_der = self.sigs_ecdsa_not_strict_der + 1;
                }
                if s.length <= 69 {
                    self.sigs_ecdsa_length_less_70byte = self.sigs_ecdsa_length_less_70byte + 1;
                } else if s.length == 70 {
                    self.sigs_ecdsa_length_70byte = self.sigs_ecdsa_length_70byte + 1;
                } else if s.length == 71 {
                    self.sigs_ecdsa_length_71byte = self.sigs_ecdsa_length_71byte + 1;
                } else if s.length == 72 {
                    self.sigs_ecdsa_length_72byte = self.sigs_ecdsa_length_72byte + 1;
                } else if s.length == 73 {
                    self.sigs_ecdsa_length_73byte = self.sigs_ecdsa_length_73byte + 1;
                } else if s.length == 74 {
                    self.sigs_ecdsa_length_74byte = self.sigs_ecdsa_length_74byte + 1;
                } else {
                    self.sigs_ecdsa_length_75byte_or_more = self.sigs_ecdsa_length_75byte_or_more
                        + 1;
                }
                if s.low_r {
                    self.sigs_ecdsa_low_r = self.sigs_ecdsa_low_r + 1;
                } else {
                    self.sigs_ecdsa_high_r = self.sigs_ecdsa_high_r + 1;
                }
                if s.low_s {
                    self.sigs_ecdsa_low_s = self.sigs_ecdsa_low_s + 1;
                } else {
                    self.sigs_ecdsa_high_s = self.sigs_ecdsa_high_s + 1;
                }
                if s.low_r && s.low_s {
                    self.sigs_ecdsa_low_rs = self.sigs_ecdsa_low_rs + 1;
                } else if !s.low_r && !s.low_s {
                    self.sigs_ecdsa_high_rs = self.sigs_ecdsa_high_rs + 1;
                } else if s.low_r && !s.low_s {
                    self.sigs_ecdsa_low_r_high_s = self.sigs_ecdsa_low_r_high_s + 1;
                } else {
                    self.sigs_ecdsa_high_r_low_s = self.sigs_ecdsa_high_r_low_s + 1;
                }
                self.sigs_sighashes = self.sigs_sighashes + 1;
                if s.sighash == 0x01 {
                    self.sigs_sighash_all = self.sigs_sighash_all + 1;
                } else if s.sighash == 0x02 {
                    self.sigs_sighash_none = self.sigs_sighash_none + 1;
                } else if s.sighash == 0x03 {
                    self.sigs_sighash_single = self.sigs_sighash_single + 1;
                } else if s.sighash == 0x81 {
                    self.sigs_sighash_all_acp = self.sigs_sighash_all_acp + 1;
                } else if s.sighash == 0x82 {
                    self.sigs_sighash_none_acp = self.sigs_sighash_none_acp + 1;
                } else if s.sighash == 0x83 {
                    self.sigs_sighash_single_acp = self.sigs_sighash_single_acp + 1;
                }
            }
            i = i + 1;
        }
        proof {
            assert(ss@.take(n as int) =~= ss@);
        }
    }

    /// Derives the pubkey and signature statistics of a block.
    ///
    /// The result counts every public key and signature discovered in the
    /// transactions' script facts, in the partitions the record names.
    pub fn from_block(height: u64, date: DateYmd, facts: &Vec<TxFacts>) -> (s: ScriptStats)
        requires
            height <= 0x7fff_ffff_ffff_ffff,
            script_atoms(facts@) <= 0x7fff_ffff,
            forall|t: int| 0 <= t < facts@.len() ==> tx_facts_wf(#[trigger] facts@[t]),
        ensures
            s.height == height,
            s.date == date,
            sc_matches(s, sc_txs(facts@)),
    {
        let mut s = ScriptStats {
            height: height as i64,
            date,
            pubkeys: 0, pubkeys_compressed: 0, pubkeys_uncompressed: 0,
            pubkeys_compressed_inputs: 0, pubkeys_uncompressed_inputs: 0,
            pubkeys_compressed_outputs: 0, pubkeys_uncompressed_outputs: 0,
            sigs_schnorr: 0, sigs_ecdsa: 0, sigs_ecdsa_not_strict_der: 0,
            sigs_ecdsa_strict_der: 0, sigs_ecdsa_length_less_70byte: 0,
            sigs_ecdsa_length_70byte: 0, sigs_ecdsa_length_71byte: 0,
            sigs_ecdsa_length_72byte: 0, sigs_ecdsa_length_73byte: 0,
            sigs_ecdsa_length_74byte: 0, sigs_ecdsa_length_75byte_or_more: 0,
            sigs_ecdsa_low_r: 0, sigs_ecdsa_high_r: 0, sigs_ecdsa_low_s: 0,
            sigs_ecdsa_high_s: 0, sigs_ecdsa_high_rs: 0, sigs_ecdsa_low_rs: 0,
            sigs_ecdsa_low_r_high_s: 0, sigs_ecdsa_high_r_low_s: 0, sigs_sighashes: 0,
            sigs_sighash_all: 0, sigs_sighash_none: 0, sigs_sighash_single: 0,
            sigs_sighash_all_acp: 0, sigs_sighash_none_acp: 0, sigs_sighash_single_acp: 0,
        };
        let n = facts.len();
        let mut t: usize = 0;
        while t < n
            invariant
                n == facts@.len(),
                0 <= t <= n,
                script_atoms(facts@) <= 0x7fff_ffff,
                forall|x: int| 0 <= x < facts@.len() ==> tx_facts_wf(#[trigger] facts@[x]),
                s.height == height as i64,
                s.date == date,
                sc_matches(s, sc_txs(facts@.take(t as int))),
            decreases n - t,
        {
            proof {
                assert(facts@.take(t + 1).drop_last() =~= facts@.take(t as int));
                lemma_sc_txs_le(facts@.take(t as int));
                lemma_script_atoms_mono(facts@, t as int);
                lemma_script_atoms_mono(facts@, t + 1);
            }
            let tx = &facts[t];
            let ghost base = sc_txs(facts@.take(t as int));
            let ni = tx.inputs.len();
            let mut i: usize = 0;
            while i < ni
                invariant
                    ni == tx.inputs@.len(),
                    0 <= i <= ni,
                    tx == facts@[t as int],
                    t < facts@.len(),
                    n == facts@.len(),
                    script_atoms(facts@) <= 0x7fff_ffff,
                    forall|x: int| 0 <= x < facts@.len() ==> tx_facts_wf(#[trigger] facts@[x]),
                    sc_le(base, script_atoms(facts@.take(t as int))),
                    script_atoms(facts@.take(t + 1)) <= script_atoms(facts@),
                    script_atoms(facts@.take(t + 1)) == script_atoms(facts@.take(t as int))
                        + atoms_inputs(tx.inputs@) + atoms_outputs(tx.outputs@),
                    s.height == height as i64,
                    s.date == date,
                    sc_matches(s, sc_add(base, sc_inputs(tx.inputs@.take(i as int)))),
                decreases ni - i,
            {
                proof {
                    assert(tx.inputs@.take(i + 1).drop_last() =~= tx.inputs@.take(i as int));
                    lemma_sc_inputs_le(tx.inputs@.take(i as int));
                    lemma_atoms_inputs_prefix(tx.inputs@, i as int);
                    lemma_atoms_outputs_nonneg(tx.outputs@);
                    lemma_script_atoms_nonneg(facts@.take(t as int));
                }
                let inp = &tx.inputs[i];
                proof {
                    lemma_sc_pubs_le(inp.pubkeys_compressed@, true);
                    assert(tx_facts_wf(facts@[t as int]));
                }
                s.tally_pubs(&inp.pubkeys_compressed, true);
                s.tally_sigs(&inp.sigs);
                i = i + 1;
            }
            proof {
                assert(tx.inputs@.take(ni as int) =~= tx.inputs@);
            }
            let no = tx.outputs.len();
            let mut o: usize = 0;
            while o < no
                invariant
                    no == tx.outputs@.len(),
                    0 <= o <= no,
                    tx == facts@[t as int],
                    t < facts@.len(),
                    n == facts@.len(),
                    script_atoms(facts@) <= 0x7fff_ffff,
                    forall|x: int| 0 <= x < facts@.len() ==> tx_facts_wf(#[trigger] facts@[x]),
                    sc_le(base, script_atoms(facts@.take(t as int))),
                    script_atoms(facts@.take(t + 1)) <= script_atoms(facts@),
                    script_atoms(facts@.take(t + 1)) == script_atoms(facts@.take(t as int))
                        + atoms_inputs(tx.inputs@) + atoms_outputs(tx.outputs@),
                    s.height == height as i64,
                    s.date == date,
                    sc_matches(
                        s,
                        sc_add(
                            base,
                            sc_add(sc_inputs(tx.inputs@), sc_outputs(tx.outputs@.take(o as int))),
                        ),
                    ),
                decreases no - o,
            {
                proof {
                    assert(tx.outputs@.take(o + 1).drop_last() =~= tx.outputs@.take(o as int));
                    lemma_sc_inputs_le(tx.inputs@);
                    lemma_sc_outputs_le(tx.outputs@.take(o as int));
                    lemma_atoms_outputs_prefix(tx.outputs@, o as int);
                    lemma_atoms_inputs_nonneg(tx.inputs@);
                    lemma_script_atoms_nonneg(facts@.take(t as int));
                }
                let outp = &tx.outputs[o];
                s.tally_pubs(&outp.pubkeys_compressed, false);
                o = o + 1;
            }
            proof {
                assert(tx.outputs@.take(no as int) =~= tx.outputs@);
            }
            t = t + 1;
        }
        proof {
            assert(facts@.take(n as int) =~= facts@);
        }
        s
    }
}

/// Every count field of the record lies between 0 and the bound.
pub open spec fn sc_le_stats(s: ScriptStats, k: int) -> bool {
    &&& 0 <= s.pubkeys <= k
    &&& 0 <= s.pubkeys_compressed <= k
    &&& 0 <= s.pubkeys_uncompressed <= k
    &&& 0 <= s.pubkeys_compressed_inputs <= k
    &&& 0 <= s.pubkeys_uncompressed_inputs <= k
    &&& 0 <= s.pubkeys_compressed_outputs <= k
    &&& 0 <= s.pubkeys_uncompressed_outputs <= k
    &&& 0 <= s.sigs_schnorr <= k
    &&& 0 <= s.sigs_ecdsa <= k
    &&& 0 <= s.sigs_ecdsa_not_strict_der <= k
    &&& 0 <= s.sigs_ecdsa_strict_der <= k
    &&& 0 <= s.sigs_ecdsa_length_less_70byte <= k
    &&& 0 <= s.sigs_ecdsa_length_70byte <= k
    &&& 0 <= s.sigs_ecdsa_length_71byte <= k
    &&& 0 <= s.sigs_ecdsa_length_72byte <= k
    &&& 0 <= s.sigs_ecdsa_length_73byte <= k
    &&& 0 <= s.sigs_ecdsa_length_74byte <= k
    &&& 0 <= s.sigs_ecdsa_length_75byte_or_more <= k
    &&& 0 <= s.sigs_ecdsa_low_r <= k
    &&& 0 <= s.sigs_ecdsa_high_r <= k
    &&& 0 <= s.sigs_ecdsa_low_s <= k
    &&& 0 <= s.sigs_ecdsa_high_s <= k
    &&& 0 <= s.sigs_ecdsa_high_rs <= k
    &&& 0 <= s.sigs_ecdsa_low_rs <= k
    &&& 0 <= s.sigs_ecdsa_low_r_high_s <= k
    &&& 0 <= s.sigs_ecdsa_high_r_low_s <= k
    &&& 0 <= s.sigs_sighashes <= k
    &&& 0 <= s.sigs_sighash_all <= k
    &&& 0 <= s.sigs_sighash_none <= k
    &&& 0 <= s.sigs_sighash_single <= k
    &&& 0 <= s.sigs_sighash_all_acp <= k
    &&& 0 <= s.sigs_sighash_none_acp <= k
    &&& 0 <= s.sigs_sighash_single_acp <= k
}

/// The second record equals the first with the counts added fieldwise;
/// height and date are unchanged.
pub open spec fn sc_shifted(a: ScriptStats, b: ScriptStats, c: ScriptCounts) -> bool {
    &&& b.height == a.height
    &&& b.date == a.date
    &&& b.pubkeys == a.pubkeys + c.pubkeys
    &&& b.pubkeys_compressed == a.pubkeys_compressed + c.pubkeys_compressed
    &&& b.pubkeys_uncompressed == a.pubkeys_uncompressed + c.pubkeys_uncompressed
    &&& b.pubkeys_compressed_inputs == a.pubkeys_compressed_inputs + c.pubkeys_compressed_inputs
    &&& b.pubkeys_uncompressed_inputs == a.pubkeys_uncompressed_inputs
        + c.pubkeys_uncompressed_inputs
    &&& b.pubkeys_compressed_outputs == a.pubkeys_compressed_outputs
        + c.pubkeys_compressed_outputs
    &&& b.pubkeys_uncompressed_outputs == a.pubkeys_uncompressed_outputs
        + c.pubkeys_uncompressed_outputs
    &&& b.sigs_schnorr == a.sigs_schnorr + c.sigs_schnorr
    &&& b.sigs_ecdsa == a.sigs_ecdsa + c.sigs_ecdsa
    &&& b.sigs_ecdsa_not_strict_der == a.sigs_ecdsa_not_strict_der + c.sigs_ecdsa_not_strict_der
    &&& b.sigs_ecdsa_strict_der == a.sigs_ecdsa_strict_der + c.sigs_ecdsa_strict_der
    &&& b.sigs_ecdsa_length_less_70byte == a.sigs_ecdsa_length_less_70byte
        + c.sigs_ecdsa_length_less_70byte
    &&& b.sigs_ecdsa_length_70byte == a.sigs_ecdsa_length_70byte + c.sigs_ecdsa_length_70byte
    &&& b.sigs_ecdsa_length_71byte == a.sigs_ecdsa_length_71byte + c.sigs_ecdsa_length_71byte
    &&& b.sigs_ecdsa_length_72byte == a.sigs_ecdsa_length_72byte + c.sigs_ecdsa_length_72byte
    &&& b.sigs_ecdsa_length_73byte == a.sigs_ecdsa_length_73byte + c.sigs_ecdsa_length_73byte
    &&& b.sigs_ecdsa_length_74byte == a.sigs_ecdsa_length_74byte + c.sigs_ecdsa_length_74byte
    &&& b.sigs_ecdsa_length_75byte_or_more == a.sigs_ecdsa_length_75byte_or_more
        + c.sigs_ecdsa_length_75byte_or_more
    &&& b.sigs_ecdsa_low_r == a.sigs_ecdsa_low_r + c.sigs_ecdsa_low_r
    &&& b.sigs_ecdsa_high_r == a.sigs_ecdsa_high_r + c.sigs_ecdsa_high_r
    &&& b.sigs_ecdsa_low_s == a.sigs_ecdsa_low_s + c.sigs_ecdsa_low_s
    &&& b.sigs_ecdsa_high_s == a.sigs_ecdsa_high_s + c.sigs_ecdsa_high_s
    &&& b.sigs_ecdsa_high_rs == a.sigs_ecdsa_high_rs + c.sigs_ecdsa_high_rs
    &&& b.sigs_ecdsa_low_rs == a.sigs_ecdsa_low_rs + c.sigs_ecdsa_low_rs
    &&& b.sigs_ecdsa_low_r_high_s == a.sigs_ecdsa_low_r_high_s + c.sigs_ecdsa_low_r_high_s
    &&& b.sigs_ecdsa_high_r_low_s == a.sigs_ecdsa_high_r_low_s + c.sigs_ecdsa_high_r_low_s
    &&& b.sigs_sighashes == a.sigs_sighashes + c.sigs_sighashes
    &&& b.sigs_sighash_all == a.sigs_sighash_all + c.sigs_sighash_all
    &&& b.sigs_sighash_none == a.sigs_sighash_none + c.sigs_sighash_none
    &&& b.sigs_sighash_single == a.sigs_sighash_single + c.sigs_sighash_single
    &&& b.sigs_sighash_all_acp == a.sigs_sighash_all_acp + c.sigs_sighash_all_acp
    &&& b.sigs_sighash_none_acp == a.sigs_sighash_none_acp + c.sigs_sighash_none_acp
    &&& b.sigs_sighash_single_acp == a.sigs_sighash_single_acp + c.sigs_sighash_single_acp
}

/// Atoms of an input-list prefix plus one more input stay below the whole.
proof fn lemma_atoms_inputs_prefix(is: Seq<InputFact>, i: int)
    requires
        0 <= i < is.len(),
    ensures
        atoms_inputs(is.take(i)) + is[i].pubkeys_compressed.len() + is[i].sigs.len()
            == atoms_inputs(is.take(i + 1)),
        atoms_inputs(is.take(i + 1)) <= atoms_inputs(is),
    decreases is.len() - i,
{
    assert(is.take(i + 1).drop_last() =~= is.take(i));
    if i + 1 == is.len() {
        assert(is.take(i + 1) =~= is);
    } else {
        lemma_atoms_inputs_prefix(is, i + 1);
        lemma_atoms_inputs_nonneg(is.take(i + 1));
    }
}

/// Atoms of an output-list prefix plus one more output stay below the whole.
proof fn lemma_atoms_outputs_prefix(os: Seq<OutputFact>, i: int)
    requires
        0 <= i < os.len(),
    ensures
        atoms_outputs(os.take(i)) + os[i].pubkeys_compressed.len() == atoms_outputs(
            os.take(i + 1),
        ),
        atoms_outputs(os.take(i + 1)) <= atoms_outputs(os),
    decreases os.len() - i,
{
    assert(os.take(i + 1).drop_last() =~= os.take(i));
    if i + 1 == os.len() {
        assert(os.take(i + 1) =~= os);
    } else {
        lemma_atoms_outputs_prefix(os, i + 1);
        lemma_atoms_outputs_nonneg(os.take(i + 1));
    }
}

} // verus!
