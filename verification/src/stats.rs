//! The six sibling records of per-block statistics, and their derivation
//! from a decoded block.

pub mod blockstats;
pub mod feeratestats;
pub mod inputstats;
pub mod outputstats;
pub mod scriptstats;
pub mod txstats;

use vstd::prelude::*;

use crate::boundary::{facts_of, tx_facts_from_raw, tx_parse_ok};
use crate::caldate::DateYmd;
use crate::classify::{TxFacts, facts_aligned, facts_all_like, facts_like, tx_facts_wf};
use crate::hexnum::{spec_all_hex, spec_hex_value};
use crate::model::{Block, TxData};
use crate::stats::blockstats::BlockStats;
use crate::stats::feeratestats::FeerateStats;
use crate::stats::inputstats::{InputStats, in_atoms};
use crate::stats::outputstats::{OutputStats, out_atoms, out_value_total};
use crate::stats::scriptstats::{ScriptStats, script_atoms};
use crate::stats::txstats::TxStats;

verus! {

/// Why a block could not be analyzed.
#[derive(Clone, Copy, Debug, PartialEq, Eq, Structural)]
pub enum StatsError {
    /// A transaction's raw bytes did not decode, or its scripts did not
    /// parse.
    TxInfo,
    /// The compact-target bits are not an unprefixed 32-bit hex string.
    UnprefixedHex,
    /// The compact-target bits exceed the signed 32-bit column.
    ParseInt,
    /// A derived total would not fit its storage column.
    Overflow,
}

/// The full bundle of statistics derived from one block.
#[derive(Clone, Copy, Debug, PartialEq)]
pub struct Stats {
    pub block: BlockStats,
    pub tx: TxStats,
    pub input: InputStats,
    pub output: OutputStats,
    pub feerate: FeerateStats,
    pub script: ScriptStats,
}

/// The named facts of every transaction of the block, in block order:
/// what the outside parsers derive from each transaction's raw bytes,
/// as a function of the bytes alone.
pub open spec fn facts_seq(xs: Seq<TxData>) -> Seq<TxFacts> {
    Seq::new(xs.len(), |t: int| facts_of(xs[t].raw@))
}

/// Every transaction of the block parses.
pub open spec fn all_parse_ok(b: Block) -> bool {
    forall|t: int| 0 <= t < b.txdata@.len() ==> tx_parse_ok((#[trigger] b.txdata@[t]).raw@)
}

/// The compact-target bits are an unprefixed hex string whose value fits
/// 32 unsigned bits.
pub open spec fn bits_hex_ok(b: Block) -> bool {
    &&& b.bits@.len() >= 1
    &&& spec_all_hex(b.bits@)
    &&& spec_hex_value(b.bits@) <= 0xffff_ffff
}

/// The compact-target bits fit the signed 32-bit storage column.
pub open spec fn bits_column_ok(b: Block) -> bool {
    &&& b.bits@.len() >= 1
    &&& spec_all_hex(b.bits@)
    &&& spec_hex_value(b.bits@) <= 0x7fff_ffff
}

/// All facts a block's analysis needs, with the bounds that keep every
/// derived counter within its column.
pub open spec fn facts_usable(b: Block, fs: Seq<TxFacts>) -> bool {
    &&& facts_aligned(fs, b.txdata@)
    &&& out_atoms(fs) <= 0x7fff_ffff
    &&& in_atoms(fs) <= 0x7fff_ffff
    &&& script_atoms(fs) <= 0x7fff_ffff
    &&& out_value_total(fs) <= 0x7fff_ffff_ffff_ffff
    &&& fs.len() >= 1 ==> fs[0].weight <= 0x7fff_ffff_ffff_ffff
}

/// Re-parses every transaction of the block into its script facts.
///
/// Succeeds exactly when every transaction's raw bytes parse; the facts
/// then line up one-to-one with the block's transactions except that the
/// outside parser decides each transaction's own input and output lists.
pub fn block_facts(block: &Block) -> (r: Result<Vec<TxFacts>, StatsError>)
    ensures
        r is Ok <==> (forall|t: int|
            0 <= t < block.txdata@.len() ==> tx_parse_ok(
                (#[trigger] block.txdata@[t]).raw@,
            )),
        r matches Err(e) ==> e == StatsError::TxInfo,
        r matches Ok(fs) ==> {
            &&& fs@.len() == block.txdata@.len()
            &&& forall|t: int| 0 <= t < fs@.len() ==> tx_facts_wf(#[trigger] fs@[t])
            &&& facts_all_like(fs@, facts_seq(block.txdata@))
        },
{
    let n = block.txdata.len();
    let mut facts: Vec<TxFacts> = Vec::new();
    let mut t: usize = 0;
    while t < n
        invariant
            0 <= t <= n,
            n == block.txdata@.len(),
            facts@.len() == t,
            forall|x: int|
                0 <= x < t ==> tx_parse_ok((#[trigger] block.txdata@[x]).raw@),
            forall|x: int| 0 <= x < t ==> tx_facts_wf(#[trigger] facts@[x]),
            forall|x: int|
                0 <= x < t ==> facts_like(#[trigger] facts@[x], facts_of(block.txdata@[x].raw@)),
        decreases n - t,
    {
        match tx_facts_from_raw(&block.txdata[t].raw) {
            Some(f) => {
                facts.push(f);
            },
            None => {
                return Err(StatsError::TxInfo);
            },
        }
        t = t + 1;
    }
    Ok(facts)
}

/// Checks that the facts line up with the block and that every total the
/// records accumulate fits its storage column.
fn check_facts(block: &Block, facts: &Vec<TxFacts>) -> (r: bool)
    ensures
        r == facts_usable(*block, facts@),
{
    let n = facts.len();
    if n != block.txdata.len() {
        return false;
    }
    let ghost fs = facts@;
    let mut out_n: u64 = 0;
    let mut in_n: u64 = 0;
    let mut atom_n: u64 = 0;
    let mut value_n: u64 = 0;
    let mut t: usize = 0;
    while t < n
        invariant
            0 <= t <= n,
            n == facts@.len(),
            n == block.txdata@.len(),
            fs == facts@,
            forall|x: int|
                0 <= x < t ==> (#[trigger] fs[x]).inputs@.len() == block.txdata@[x].inputs@.len()
                    && fs[x].outputs@.len() == block.txdata@[x].outputs@.len(),
            out_n == out_atoms(fs.take(t as int)),
            in_n == in_atoms(fs.take(t as int)),
            atom_n == script_atoms(fs.take(t as int)),
            value_n == out_value_total(fs.take(t as int)),
            out_n <= 0x7fff_ffff,
            in_n <= 0x7fff_ffff,
            atom_n <= 0x7fff_ffff,
            value_n <= 0x7fff_ffff_ffff_ffff,
        decreases n - t,
    {
        proof {
            assert(fs.take(t + 1).drop_last() =~= fs.take(t as int));
        }
        let tx = &facts[t];
        let ntx = &block.txdata[t];
        if tx.inputs.len() != ntx.inputs.len() || tx.outputs.len() != ntx.outputs.len() {
            proof {
                assert(!facts_aligned(fs, block.txdata@));
            }
            return false;
        }
        let no = tx.outputs.len() as u64;
        if no > 0x7fff_ffff - out_n {
            proof {
                lemma_out_atoms_step_exceeds(fs, t as int);
            }
            return false;
        }
        out_n = out_n + no;
        let ni = tx.inputs.len() as u64;
        if ni > 0x7fff_ffff - in_n {
            proof {
                lemma_in_atoms_step_exceeds(fs, t as int);
            }
            return false;
        }
        in_n = in_n + ni;
        let (tx_atoms, tx_value) = match tx_atom_totals(tx) {
            Some(p) => p,
            None => {
                proof {
                    lemma_script_atoms_step_exceeds_any(fs, t as int);
                    lemma_out_value_step_exceeds_any(fs, t as int);
                }
                return false;
            },
        };
        if tx_atoms > 0x7fff_ffff - atom_n {
            proof {
                lemma_script_atoms_step_exceeds(fs, t as int, tx_atoms as int);
            }
            return false;
        }
        atom_n = atom_n + tx_atoms;
        if tx_value > 0x7fff_ffff_ffff_ffff - value_n {
            proof {
                lemma_out_value_step_exceeds(fs, t as int, tx_value as int);
            }
            return false;
        }
        value_n = value_n + tx_value;
        t = t + 1;
    }
    proof {
        assert(fs.take(n as int) =~= fs);
    }
    if n >= 1 && facts[0].weight > 0x7fff_ffff_ffff_ffff {
        return false;
    }
    true
}

/// Per-transaction script-atom and value totals, bounded by the storage
/// columns; absent when either total exceeds its column.
fn tx_atom_totals(tx: &TxFacts) -> (r: Option<(u64, u64)>)
    ensures
        r matches Some(p) ==> {
            &&& p.0 == crate::stats::scriptstats::atoms_inputs(tx.inputs@)
                + crate::stats::scriptstats::atoms_outputs(tx.outputs@)
            &&& p.1 == crate::stats::outputstats::out_value_tx(tx.outputs@)
            &&& p.0 <= 0x7fff_ffff
            &&& p.1 <= 0x7fff_ffff_ffff_ffff
        },
        r is None ==> crate::stats::scriptstats::atoms_inputs(tx.inputs@)
            + crate::stats::scriptstats::atoms_outputs(tx.outputs@) > 0x7fff_ffff
            || crate::stats::outputstats::out_value_tx(tx.outputs@) > 0x7fff_ffff_ffff_ffff,
{
    let ni = tx.inputs.len();
    let mut atoms: u64 = 0;
    let mut i: usize = 0;
    while i < ni
        invariant
            0 <= i <= ni,
            ni == tx.inputs@.len(),
            atoms == crate::stats::scriptstats::atoms_inputs(tx.inputs@.take(i as int)),
            atoms <= 0x7fff_ffff,
        decreases ni - i,
    {
        proof {
            assert(tx.inputs@.take(i + 1).drop_last() =~= tx.inputs@.take(i as int));
        }
        let inp = &tx.inputs[i];
        let pk = inp.pubkeys_compressed.len() as u64;
        if pk > 0x7fff_ffff - atoms {
            proof {
                lemma_atoms_inputs_exceeds(tx.inputs@, i + 1);
                lemma_atoms_outputs_nn(tx.outputs@);
            }
            return None;
        }
        let sg = inp.sigs.len() as u64;
        if sg > 0x7fff_ffff - atoms - pk {
            proof {
                lemma_atoms_inputs_exceeds(tx.inputs@, i + 1);
                lemma_atoms_outputs_nn(tx.outputs@);
            }
            return None;
        }
        atoms = atoms + pk + sg;
        i = i + 1;
    }
    proof {
        assert(tx.inputs@.take(ni as int) =~= tx.inputs@);
    }
    let no = tx.outputs.len();
    let mut value: u64 = 0;
    let mut j: usize = 0;
    while j < no
        invariant
            0 <= j <= no,
            no == tx.outputs@.len(),
            atoms == crate::stats::scriptstats::atoms_inputs(tx.inputs@)
                + crate::stats::scriptstats::atoms_outputs(tx.outputs@.take(j as int)),
            atoms <= 0x7fff_ffff,
            value == crate::stats::outputstats::out_value_tx(tx.outputs@.take(j as int)),
            value <= 0x7fff_ffff_ffff_ffff,
        decreases no - j,
    {
        proof {
            assert(tx.outputs@.take(j + 1).drop_last() =~= tx.outputs@.take(j as int));
        }
        let o = &tx.outputs[j];
        let pk = o.pubkeys_compressed.len() as u64;
        if pk > 0x7fff_ffff - atoms {
            proof {
                lemma_atoms_outputs_mono(tx.outputs@, j + 1);
            }
            return None;
        }
        if o.value > 0x7fff_ffff_ffff_ffff - value {
            proof {
                lemma_out_value_exceeds(tx.outputs@, j + 1);
            }
            return None;
        }
        atoms = atoms + pk;
        value = value + o.value;
        j = j + 1;
    }
    proof {
        assert(tx.outputs@.take(no as int) =~= tx.outputs@);
    }
    Some((atoms, value))
}

/// Prefix atom totals past a bound force the whole past it.
proof fn lemma_atoms_inputs_exceeds(is: Seq<crate::classify::InputFact>, i: int)
    requires
        0 <= i <= is.len(),
        crate::stats::scriptstats::atoms_inputs(is.take(i)) > 0x7fff_ffff,
    ensures
        crate::stats::scriptstats::atoms_inputs(is) > 0x7fff_ffff,
    decreases is.len() - i,
{
    if i == is.len() {
        assert(is.take(i) =~= is);
    } else {
        assert(is.take(i + 1).drop_last() =~= is.take(i));
        lemma_atoms_inputs_exceeds(is, i + 1);
    }
}

proof fn lemma_atoms_inputs_nn(is: Seq<crate::classify::InputFact>)
    ensures
        crate::stats::scriptstats::atoms_inputs(is) >= 0,
    decreases is.len(),
{
    if is.len() > 0 {
        lemma_atoms_inputs_nn(is.drop_last());
    }
}

proof fn lemma_atoms_outputs_nn(os: Seq<crate::classify::OutputFact>)
    ensures
        crate::stats::scriptstats::atoms_outputs(os) >= 0,
    decreases os.len(),
{
    if os.len() > 0 {
        lemma_atoms_outputs_nn(os.drop_last());
    }
}

proof fn lemma_atoms_outputs_mono(os: Seq<crate::classify::OutputFact>, j: int)
    requires
        0 <= j <= os.len(),
    ensures
        crate::stats::scriptstats::atoms_outputs(os.take(j))
            <= crate::stats::scriptstats::atoms_outputs(os),
    decreases os.len() - j,
{
    if j == os.len() {
        assert(os.take(j) =~= os);
    } else {
        assert(os.take(j + 1).drop_last() =~= os.take(j));
        lemma_atoms_outputs_mono(os, j + 1);
    }
}

proof fn lemma_out_value_exceeds(os: Seq<crate::classify::OutputFact>, j: int)
    requires
        0 <= j <= os.len(),
        crate::stats::outputstats::out_value_tx(os.take(j)) > 0x7fff_ffff_ffff_ffff,
    ensures
        crate::stats::outputstats::out_value_tx(os) > 0x7fff_ffff_ffff_ffff,
    decreases os.len() - j,
{
    if j == os.len() {
        assert(os.take(j) =~= os);
    } else {
        assert(os.take(j + 1).drop_last() =~= os.take(j));
        lemma_out_value_exceeds(os, j + 1);
    }
}

impl Stats {
    /// Analyzes one block: re-parses every transaction into script facts
    /// and derives the six sibling records.
    ///
    /// Succeeds exactly when every transaction parses, the named facts
    /// keep every total within its column, and the compact-target bits
    /// fit theirs; the bundle then matches the block and the named facts
    /// field by field, so repeat analyses of one block agree.  Each error
    /// comes on exactly the stated inputs.
    #[verifier::rlimit(100)]
    pub fn from_block(block: &Block) -> (r: Result<Stats, StatsError>)
        requires
            crate::model::block_counts_bounded(*block),
            crate::stats::inputstats::prevout_heights_bounded(block.txdata@),
            crate::stats::outputstats::script_bytes_total(block.txdata@)
                <= 0x7fff_ffff_ffff_ffff,
            forall|t: int|
                1 <= t < block.txdata@.len() ==> (#[trigger] block.txdata@[t]).size
                    <= 0x7fff_ffff,
        ensures
            r is Ok <==> (all_parse_ok(*block) && facts_usable(
                *block,
                facts_seq(block.txdata@),
            ) && bits_column_ok(*block)),
            r matches Err(e) ==> (e == StatsError::TxInfo <==> !all_parse_ok(*block)),
            r matches Err(e) ==> (e == StatsError::Overflow <==> (all_parse_ok(*block)
                && !facts_usable(*block, facts_seq(block.txdata@)))),
            r matches Err(e) ==> (e == StatsError::UnprefixedHex <==> (all_parse_ok(*block)
                && facts_usable(*block, facts_seq(block.txdata@)) && !bits_hex_ok(*block))),
            r matches Err(e) ==> (e == StatsError::ParseInt <==> (all_parse_ok(*block)
                && facts_usable(*block, facts_seq(block.txdata@)) && bits_hex_ok(*block)
                && !bits_column_ok(*block))),
            r matches Ok(s) ==> {
                &&& crate::caldate::spec_valid_date(s.block.date)
                &&& crate::caldate::spec_day_number(s.block.date) == block.time / 86400
                &&& crate::laws::bundle_matches(
                    *block,
                    s.block.date,
                    facts_seq(block.txdata@),
                    s,
                )
            },
    {
        let ghost ns = facts_seq(block.txdata@);
        let date = DateYmd::from_unix(block.time);
        let facts = match block_facts(block) {
            Ok(f) => f,
            Err(e) => {
                return Err(e);
            },
        };
        proof {
            crate::laws::lemma_like_usable(*block, facts@, ns);
        }
        if !check_facts(block, &facts) {
            return Err(StatsError::Overflow);
        }
        let block_stats = match BlockStats::from_block(block, date, &facts) {
            Ok(s) => s,
            Err(e) => {
                return Err(e);
            },
        };
        let s = Stats {
            block: block_stats,
            tx: TxStats::from_block(block, date, &facts),
            input: InputStats::from_block(block, date, &facts),
            output: OutputStats::from_block(block, date, &facts),
            script: ScriptStats::from_block(block.height, date, &facts),
            feerate: FeerateStats::from_block(block, date),
        };
        proof {
            assert(facts@.take(facts@.len() as int) =~= facts@);
            assert(crate::laws::bundle_matches(*block, date, facts@, s));
            crate::laws::lemma_bundle_like(*block, date, facts@, ns, s);
        }
        Ok(s)
    }
}

/// Prefix-atom totals past the limit force the whole total past it.
proof fn lemma_out_atoms_step_exceeds(fs: Seq<TxFacts>, t: int)
    requires
        0 <= t < fs.len(),
        out_atoms(fs.take(t)) + fs[t].outputs@.len() > 0x7fff_ffff,
    ensures
        out_atoms(fs) > 0x7fff_ffff,
{
    assert(fs.take(t + 1).drop_last() =~= fs.take(t));
    crate::stats::outputstats::lemma_out_atoms_mono(fs, t + 1);
}

proof fn lemma_in_atoms_step_exceeds(fs: Seq<TxFacts>, t: int)
    requires
        0 <= t < fs.len(),
        in_atoms(fs.take(t)) + fs[t].inputs@.len() > 0x7fff_ffff,
    ensures
        in_atoms(fs) > 0x7fff_ffff,
{
    assert(fs.take(t + 1).drop_last() =~= fs.take(t));
    crate::stats::inputstats::lemma_in_atoms_mono(fs, t + 1);
}

proof fn lemma_script_atoms_step_exceeds(fs: Seq<TxFacts>, t: int, tx_atoms: int)
    requires
        0 <= t < fs.len(),
        tx_atoms == crate::stats::scriptstats::atoms_inputs(fs[t].inputs@)
            + crate::stats::scriptstats::atoms_outputs(fs[t].outputs@),
        script_atoms(fs.take(t)) + tx_atoms > 0x7fff_ffff,
    ensures
        script_atoms(fs) > 0x7fff_ffff,
{
    assert(fs.take(t + 1).drop_last() =~= fs.take(t));
    crate::stats::scriptstats::lemma_script_atoms_mono(fs, t + 1);
}

proof fn lemma_script_atoms_step_exceeds_any(fs: Seq<TxFacts>, t: int)
    requires
        0 <= t < fs.len(),
    ensures
        crate::stats::scriptstats::atoms_inputs(fs[t].inputs@)
            + crate::stats::scriptstats::atoms_outputs(fs[t].outputs@) > 0x7fff_ffff
            ==> script_atoms(fs) > 0x7fff_ffff,
{
    if crate::stats::scriptstats::atoms_inputs(fs[t].inputs@)
        + crate::stats::scriptstats::atoms_outputs(fs[t].outputs@) > 0x7fff_ffff {
        assert(fs.take(t + 1).drop_last() =~= fs.take(t));
        lemma_script_atoms_nn_local(fs.take(t));
        lemma_script_atoms_step_exceeds(
            fs,
            t,
            crate::stats::scriptstats::atoms_inputs(fs[t].inputs@)
                + crate::stats::scriptstats::atoms_outputs(fs[t].outputs@),
        );
    }
}

proof fn lemma_script_atoms_nn_local(fs: Seq<TxFacts>)
    ensures
        script_atoms(fs) >= 0,
{
    crate::stats::scriptstats::lemma_script_atoms_mono(fs, 0);
}

proof fn lemma_out_value_step_exceeds_any(fs: Seq<TxFacts>, t: int)
    requires
        0 <= t < fs.len(),
    ensures
        crate::stats::outputstats::out_value_tx(fs[t].outputs@) > 0x7fff_ffff_ffff_ffff
            ==> out_value_total(fs) > 0x7fff_ffff_ffff_ffff,
{
    if crate::stats::outputstats::out_value_tx(fs[t].outputs@) > 0x7fff_ffff_ffff_ffff {
        assert(fs.take(t + 1).drop_last() =~= fs.take(t));
        crate::stats::outputstats::lemma_out_bounds(fs.take(t));
        lemma_out_value_step_exceeds(
            fs,
            t,
            crate::stats::outputstats::out_value_tx(fs[t].outputs@),
        );
    }
}

proof fn lemma_out_value_step_exceeds(fs: Seq<TxFacts>, t: int, tx_value: int)
    requires
        0 <= t < fs.len(),
        tx_value == crate::stats::outputstats::out_value_tx(fs[t].outputs@),
        out_value_total(fs.take(t)) + tx_value > 0x7fff_ffff_ffff_ffff,
    ensures
        out_value_total(fs) > 0x7fff_ffff_ffff_ffff,
{
    assert(fs.take(t + 1).drop_last() =~= fs.take(t));
    crate::stats::outputstats::lemma_out_atoms_mono(fs, t + 1);
}

} // verus!
