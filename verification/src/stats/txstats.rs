//! Transaction statistics of a block: version buckets, spend-type classes,
//! time-lock buckets, and the same-block and ephemeral-dust protocols.
//!
//! An ephemeral-dust producer stages at most one outpoint: it must be a
//! non-coinbase version-3 transaction with a zero fee, at most 10000
//! vbytes, and exactly one output below its script's dust threshold.  The
//! first same-block spender of a staged outpoint consumes it; the spend
//! counts only when the child is version 3 with a non-zero fee and at most
//! 1000 vbytes.

use vstd::prelude::*;

use crate::boundary::{dust_limit_of, script_dust_limit};
use crate::caldate::DateYmd;
use crate::classify::TxFacts;
use crate::model::{Block, InputData, OutputData, TxData};
use crate::stats::inputstats::{bytes_eq, spec_txid_in_block};
use crate::stats::outputstats::{out_value_total, out_value_tx};

verus! {

/// Counts over a block's transactions.
#[derive(Clone, Copy, Debug, PartialEq)]
pub struct TxStats {
    pub height: i64,
    pub date: DateYmd,

    pub tx_version_1: i32,
    pub tx_version_2: i32,
    pub tx_version_3: i32,
    pub tx_version_unknown: i32,

    pub tx_output_amount: i64,

    pub tx_spending_segwit: i32,
    pub tx_spending_only_segwit: i32,
    pub tx_spending_only_legacy: i32,
    pub tx_spending_only_taproot: i32,
    pub tx_spending_segwit_and_legacy: i32,
    pub tx_spending_nested_segwit: i32,
    pub tx_spending_native_segwit: i32,
    pub tx_spending_taproot: i32,

    pub tx_bip69_compliant: i32,
    pub tx_signaling_explicit_rbf: i32,

    pub tx_1_input: i32,
    pub tx_1_output: i32,
    pub tx_1_input_1_output: i32,
    pub tx_1_input_2_output: i32,
    pub tx_spending_newly_created_utxos: i32,
    pub tx_spending_ephemeral_dust: i32,

    pub tx_timelock_height: i32,
    pub tx_timelock_timestamp: i32,
    pub tx_timelock_not_enforced: i32,
    pub tx_timelock_too_high: i32,
}

/// Number of transactions among the first `t` that satisfy the predicate
/// over node data and script facts.
pub open spec fn txcount(xs: Seq<TxData>, fs: Seq<TxFacts>, g: spec_fn(TxData, TxFacts) -> bool)
    -> int
    decreases xs.len(),
{
    if xs.len() == 0 || fs.len() != xs.len() {
        0
    } else {
        txcount(xs.drop_last(), fs.drop_last(), g) + if g(xs.last(), fs.last()) {
            1int
        } else {
            0int
        }
    }
}

/// Per-transaction predicates of the simple counters.
pub open spec fn g_version(v: int) -> spec_fn(TxData, TxFacts) -> bool {
    |x: TxData, f: TxFacts| x.version == v
}

pub open spec fn g_version_unknown() -> spec_fn(TxData, TxFacts) -> bool {
    |x: TxData, f: TxFacts| x.version != 1 && x.version != 2 && x.version != 3
}

pub open spec fn g_segwit() -> spec_fn(TxData, TxFacts) -> bool {
    |x: TxData, f: TxFacts| f.spec_spending_segwit()
}

pub open spec fn g_native() -> spec_fn(TxData, TxFacts) -> bool {
    |x: TxData, f: TxFacts| f.spec_spending_segwit() && f.spec_spending_native_segwit()
}

pub open spec fn g_nested() -> spec_fn(TxData, TxFacts) -> bool {
    |x: TxData, f: TxFacts| f.spec_spending_segwit() && f.spec_spending_nested_segwit()
}

pub open spec fn g_taproot() -> spec_fn(TxData, TxFacts) -> bool {
    |x: TxData, f: TxFacts| f.spec_spending_segwit() && f.spec_spending_taproot()
}

pub open spec fn g_segwit_and_legacy() -> spec_fn(TxData, TxFacts) -> bool {
    |x: TxData, f: TxFacts| f.spec_spending_segwit_and_legacy()
}

pub open spec fn g_only_legacy() -> spec_fn(TxData, TxFacts) -> bool {
    |x: TxData, f: TxFacts| f.spec_only_spending_legacy()
}

pub open spec fn g_only_segwit() -> spec_fn(TxData, TxFacts) -> bool {
    |x: TxData, f: TxFacts| !f.spec_only_spending_legacy() && f.spec_only_spending_segwit()
}

pub open spec fn g_only_taproot() -> spec_fn(TxData, TxFacts) -> bool {
    |x: TxData, f: TxFacts| !f.spec_only_spending_legacy() && f.spec_only_spending_segwit()
        && f.spec_only_spending_taproot()
}

pub open spec fn g_bip69() -> spec_fn(TxData, TxFacts) -> bool {
    |x: TxData, f: TxFacts| f.bip69
}

pub open spec fn g_rbf() -> spec_fn(TxData, TxFacts) -> bool {
    |x: TxData, f: TxFacts| f.spec_signaling_explicit_rbf()
}

pub open spec fn g_1_input() -> spec_fn(TxData, TxFacts) -> bool {
    |x: TxData, f: TxFacts| x.inputs@.len() == 1
}

pub open spec fn g_1_output() -> spec_fn(TxData, TxFacts) -> bool {
    |x: TxData, f: TxFacts| x.outputs@.len() == 1
}

pub open spec fn g_1_input_1_output() -> spec_fn(TxData, TxFacts) -> bool {
    |x: TxData, f: TxFacts| x.inputs@.len() == 1 && x.outputs@.len() == 1
}

pub open spec fn g_1_input_2_output() -> spec_fn(TxData, TxFacts) -> bool {
    |x: TxData, f: TxFacts| x.inputs@.len() == 1 && x.outputs@.len() == 2
}

pub open spec fn g_tl_height() -> spec_fn(TxData, TxFacts) -> bool {
    |x: TxData, f: TxFacts| x.lock_time < 500_000_000 && x.lock_time > 0
}

pub open spec fn g_tl_timestamp() -> spec_fn(TxData, TxFacts) -> bool {
    |x: TxData, f: TxFacts| x.lock_time >= 500_000_000
}

pub open spec fn g_tl_not_enforced() -> spec_fn(TxData, TxFacts) -> bool {
    |x: TxData, f: TxFacts| x.lock_time > 0 && !f.spec_locktime_enabled()
}

pub open spec fn g_tl_too_high(height: int) -> spec_fn(TxData, TxFacts) -> bool {
    |x: TxData, f: TxFacts| x.lock_time < 500_000_000 && x.lock_time > height
}

/// Output-value totals over a prefix of the facts.
pub open spec fn amount_upto(fs: Seq<TxFacts>, t: int) -> int
    decreases t,
{
    if t <= 0 {
        0
    } else {
        amount_upto(fs, t - 1) + if t - 1 < fs.len() {
            out_value_tx(fs[t - 1].outputs@)
        } else {
            0int
        }
    }
}

/// A staged ephemeral-dust outpoint: parent txid and output index.
pub type Outpoint = (Seq<u8>, u32);

/// The rolling state of the same-block scan of one transaction's inputs.
pub ghost struct DustScan {
    /// The staged outpoints not yet consumed.
    pub staged: Set<Outpoint>,
    /// A spent outpoint was created earlier in this block.
    pub newly: bool,
    /// A staged dust outpoint was consumed by a qualifying child.
    pub dust: bool,
}

/// The scan of one transaction stops early once a same-block spend is
/// found and no further dust take can change the outcome.
pub open spec fn spec_stop(sc: DustScan) -> bool {
    (sc.dust || sc.staged == Set::<Outpoint>::empty()) && sc.newly
}

/// One input's effect on the scan state: a non-coinbase input marks a
/// same-block spend when its txid appears among the earlier transactions,
/// and consumes (single-take) a staged outpoint it spends.
pub open spec fn scan_step(sc: DustScan, d: InputData, prefix: Seq<TxData>, child_ok: bool)
    -> DustScan {
    if d.coinbase {
        sc
    } else {
        DustScan {
            staged: sc.staged.remove((d.prev_txid@, d.prev_vout)),
            newly: sc.newly || spec_txid_in_block(d.prev_txid@, prefix),
            dust: sc.dust || (sc.staged.contains((d.prev_txid@, d.prev_vout)) && child_ok),
        }
    }
}

/// The scan state after the first `k` inputs, honoring the early stop.
pub open spec fn scan_inputs(
    is: Seq<InputData>,
    k: int,
    sc0: DustScan,
    prefix: Seq<TxData>,
    child_ok: bool,
) -> DustScan
    decreases k,
{
    if k <= 0 {
        sc0
    } else {
        let prev = scan_inputs(is, k - 1, sc0, prefix, child_ok);
        if spec_stop(prev) || !(0 <= k - 1 < is.len()) {
            prev
        } else {
            scan_step(prev, is[k - 1], prefix, child_ok)
        }
    }
}

/// A stopped scan no longer changes.
pub proof fn lemma_scan_frozen(
    is: Seq<InputData>,
    k: int,
    m: int,
    sc0: DustScan,
    prefix: Seq<TxData>,
    child_ok: bool,
)
    requires
        0 <= k <= m,
        spec_stop(scan_inputs(is, k, sc0, prefix, child_ok)),
    ensures
        scan_inputs(is, m, sc0, prefix, child_ok) == scan_inputs(is, k, sc0, prefix, child_ok),
    decreases m - k,
{
    if m > k {
        lemma_scan_frozen(is, k, m - 1, sc0, prefix, child_ok);
    }
}

/// The child-side qualification: version 3, a non-zero recorded fee, and
/// at most 1000 vbytes.
pub open spec fn spec_child_ok(x: TxData) -> bool {
    x.version == 3 && crate::model::tx_fee_or_zero(x) != 0 && x.vsize <= 1000
}

/// The parent-side qualification: version 3, a recorded zero fee, and at
/// most 10000 vbytes.
pub open spec fn spec_parent_ok(x: TxData) -> bool {
    x.version == 3 && x.fee == Some(0u64) && x.vsize <= 10_000
}

/// The output is below the dust threshold of its own script.
pub open spec fn spec_is_dust(o: OutputData) -> bool {
    o.value < dust_limit_of(o.script@)
}

/// Number of dust outputs among the first `upto`.
pub open spec fn dust_out_count(os: Seq<OutputData>, upto: int) -> int
    decreases upto,
{
    if upto <= 0 {
        0
    } else {
        dust_out_count(os, upto - 1) + if 0 <= upto - 1 < os.len() && spec_is_dust(os[upto - 1]) {
            1int
        } else {
            0int
        }
    }
}

/// Index of the first dust output at or after `i`; the list length when
/// there is none.
pub open spec fn first_dust_from(os: Seq<OutputData>, i: int) -> int
    decreases os.len() - i,
{
    if i < 0 || i >= os.len() {
        os.len() as int
    } else if spec_is_dust(os[i]) {
        i
    } else {
        first_dust_from(os, i + 1)
    }
}

/// The staged set after one whole transaction: the input scan runs first,
/// then a qualifying parent with exactly one dust output stages it.
pub open spec fn tx_staged_after(x: TxData, staged: Set<Outpoint>, prefix: Seq<TxData>)
    -> Set<Outpoint> {
    let sc = scan_inputs(
        x.inputs@,
        x.inputs@.len() as int,
        DustScan { staged, newly: false, dust: false },
        prefix,
        spec_child_ok(x),
    );
    if spec_parent_ok(x) && dust_out_count(x.outputs@, x.outputs@.len() as int) == 1 {
        sc.staged.insert((x.txid@, first_dust_from(x.outputs@, 0) as u32))
    } else {
        sc.staged
    }
}

/// The accumulated protocol counters over a prefix of the block.
pub ghost struct DustAcc {
    pub staged: Set<Outpoint>,
    pub newly: int,
    pub dust: int,
}

/// The protocol state after the first `t` transactions, scanned in block
/// order.
pub open spec fn dust_fold(xs: Seq<TxData>, t: int) -> DustAcc
    decreases t,
{
    if t <= 0 {
        DustAcc { staged: Set::empty(), newly: 0, dust: 0 }
    } else {
        let prev = dust_fold(xs, t - 1);
        if t - 1 < xs.len() {
            let x = xs[t - 1];
            let sc = scan_inputs(
                x.inputs@,
                x.inputs@.len() as int,
                DustScan { staged: prev.staged, newly: false, dust: false },
                xs.take(t - 1),
                spec_child_ok(x),
            );
            DustAcc {
                staged: tx_staged_after(x, prev.staged, xs.take(t - 1)),
                newly: prev.newly + if sc.newly {
                    1int
                } else {
                    0int
                },
                dust: prev.dust + if sc.dust {
                    1int
                } else {
                    0int
                },
            }
        } else {
            prev
        }
    }
}

/// The protocol counters stay within the number of transactions scanned.
pub proof fn lemma_dust_fold_bounds(xs: Seq<TxData>, t: int)
    requires
        t >= 0,
    ensures
        0 <= dust_fold(xs, t).newly <= t,
        0 <= dust_fold(xs, t).dust <= t,
    decreases t,
{
    if t > 0 {
        lemma_dust_fold_bounds(xs, t - 1);
    }
}

/// Simple counter bounds.
pub proof fn lemma_txcount_le(xs: Seq<TxData>, fs: Seq<TxFacts>)
    ensures
        forall|g: spec_fn(TxData, TxFacts) -> bool| 0 <= #[trigger] txcount(xs, fs, g)
            <= xs.len(),
    decreases xs.len(),
{
    if xs.len() > 0 && fs.len() == xs.len() {
        lemma_txcount_le(xs.drop_last(), fs.drop_last());
        assert forall|g: spec_fn(TxData, TxFacts) -> bool| 0 <= #[trigger] txcount(xs, fs, g)
            <= xs.len() by {
            assert(0 <= txcount(xs.drop_last(), fs.drop_last(), g) <= xs.drop_last().len());
        }
    } else {
        assert forall|g: spec_fn(TxData, TxFacts) -> bool| 0 <= #[trigger] txcount(xs, fs, g)
            <= xs.len() by {}
    }
}

/// The amount prefix sums stay within the block's value total.
pub proof fn lemma_amount_upto(fs: Seq<TxFacts>, t: int)
    requires
        0 <= t <= fs.len(),
    ensures
        0 <= amount_upto(fs, t) <= out_value_total(fs),
        amount_upto(fs, fs.len() as int) == out_value_total(fs),
    decreases fs.len(),
{
    lemma_amount_eq(fs, t);
    lemma_amount_eq(fs, fs.len() as int);
    assert(fs.take(fs.len() as int) =~= fs);
    crate::stats::outputstats::lemma_out_atoms_mono(fs, t);
    crate::stats::outputstats::lemma_out_bounds(fs.take(t));
    crate::stats::outputstats::lemma_out_bounds(fs);
}

proof fn lemma_amount_eq(fs: Seq<TxFacts>, t: int)
    requires
        0 <= t <= fs.len(),
    ensures
        amount_upto(fs, t) == out_value_total(fs.take(t)),
    decreases t,
{
    if t > 0 {
        lemma_amount_eq(fs, t - 1);
        assert(fs.take(t).drop_last() =~= fs.take(t - 1));
        assert(fs.take(t).last() == fs[t - 1]);
    }
}

proof fn lemma_amount_mono(fs: Seq<TxFacts>, t: int)
    requires
        0 <= t <= fs.len(),
    ensures
        0 <= amount_upto(fs, t) <= amount_upto(fs, fs.len() as int),
    decreases fs.len() - t,
{
    if t == fs.len() {
        lemma_amount_nonneg(fs, t);
    } else {
        lemma_amount_mono(fs, t + 1);
        lemma_amount_nonneg(fs, t);
        crate::stats::outputstats::lemma_out_bounds_tx(fs[t].outputs@);
    }
}

proof fn lemma_amount_nonneg(fs: Seq<TxFacts>, t: int)
    requires
        t <= fs.len(),
    ensures
        amount_upto(fs, t) >= 0,
    decreases t,
{
    if t > 0 {
        lemma_amount_nonneg(fs, t - 1);
        if t - 1 < fs.len() {
            crate::stats::outputstats::lemma_out_bounds_tx(fs[t - 1].outputs@);
        }
    }
}

/// The staged outpoints, as the set the vector holds.
pub open spec fn staged_view(v: Seq<(Vec<u8>, u32)>) -> Set<Outpoint> {
    Set::new(
        |p: Outpoint|
            exists|i: int| 0 <= i < v.len() && (#[trigger] v[i]).0@ == p.0 && v[i].1 == p.1,
    )
}

/// No outpoint occurs twice in the vector.
pub open spec fn staged_distinct(v: Seq<(Vec<u8>, u32)>) -> bool {
    forall|i: int, j: int|
        0 <= i < j < v.len() ==> !((#[trigger] v[i]).0@ == (#[trigger] v[j]).0@ && v[i].1
            == v[j].1)
}

/// Removes the outpoint from the staged vector if present; reports
/// whether it was there.
fn take_outpoint(staged: &mut Vec<(Vec<u8>, u32)>, txid: &Vec<u8>, vout: u32) -> (r: bool)
    requires
        staged_distinct(old(staged)@),
    ensures
        staged_distinct(final(staged)@),
        r == staged_view(old(staged)@).contains((txid@, vout)),
        staged_view(final(staged)@) == staged_view(old(staged)@).remove((txid@, vout)),
{
    let n = staged.len();
    let mut i: usize = 0;
    while i < n
        invariant
            n == staged@.len(),
            0 <= i <= n,
            staged@ == old(staged)@,
            staged_distinct(staged@),
            forall|k: int| 0 <= k < i ==> !((#[trigger] staged@[k]).0@ == txid@ && staged@[k].1
                == vout),
        decreases n - i,
    {
        if staged[i].1 == vout && bytes_eq(&staged[i].0, txid) {
            let ghost oldv = staged@;
            proof {
                assert(oldv[i as int].0@ == txid@ && oldv[i as int].1 == vout);
                assert(staged_view(oldv).contains((txid@, vout)));
            }
            staged.remove(i);
            proof {
                assert(staged@ =~= oldv.remove(i as int));
                assert forall|p: Outpoint| staged_view(staged@).contains(p) implies staged_view(
                    oldv,
                ).remove((txid@, vout)).contains(p) by {
                    let w = choose|w: int|
                        0 <= w < staged@.len() && (#[trigger] staged@[w]).0@ == p.0 && staged@[w].1
                            == p.1;
                    if w < i {
                        assert(oldv[w].0@ == p.0 && oldv[w].1 == p.1);
                    } else {
                        assert(oldv[w + 1].0@ == p.0 && oldv[w + 1].1 == p.1);
                    }
                }
                assert forall|p: Outpoint| staged_view(oldv).remove((txid@, vout)).contains(
                    p,
                ) implies staged_view(staged@).contains(p) by {
                    let w = choose|w: int|
                        0 <= w < oldv.len() && (#[trigger] oldv[w]).0@ == p.0 && oldv[w].1 == p.1;
                    if w < i {
                        assert(staged@[w].0@ == p.0 && staged@[w].1 == p.1);
                    } else {
                        assert(w != i);
                        assert(staged@[w - 1].0@ == p.0 && staged@[w - 1].1 == p.1);
                    }
                }
                assert(staged_view(staged@) =~= staged_view(oldv).remove((txid@, vout)));
                assert forall|a: int, b: int| 0 <= a < b < staged@.len() implies !((
                #[trigger] staged@[a]).0@ == (#[trigger] staged@[b]).0@ && staged@[a].1
                    == staged@[b].1) by {
                    let a0 = if a < i { a } else { a + 1 };
                    let b0 = if b < i { b } else { b + 1 };
                    assert(staged@[a] == oldv[a0] && staged@[b] == oldv[b0]);
                }
            }
            return true;
        }
        i = i + 1;
    }
    proof {
        if staged_view(staged@).contains((txid@, vout)) {
            let w = choose|w: int|
                0 <= w < staged@.len() && (#[trigger] staged@[w]).0@ == txid@ && staged@[w].1
                    == vout;
            assert(false);
        }
        assert(staged_view(staged@) =~= staged_view(staged@).remove((txid@, vout)));
    }
    false
}

/// Whether the txid appears among the first `t` transactions.
fn txid_in_prefix(txid: &Vec<u8>, txs: &Vec<TxData>, t: usize) -> (r: bool)
    requires
        t <= txs@.len(),
    ensures
        r == spec_txid_in_block(txid@, txs@.take(t as int)),
{
    let mut k: usize = 0;
    while k < t
        invariant
            t <= txs@.len(),
            0 <= k <= t,
            forall|x: int| 0 <= x < k ==> txs@[x].txid@ != txid@,
        decreases t - k,
    {
        if bytes_eq(&txs[k].txid, txid) {
            proof {
                assert(txs@.take(t as int)[k as int].txid@ == txid@);
            }
            return true;
        }
        k = k + 1;
    }
    proof {
        assert forall|x: int| 0 <= x < t implies txs@.take(t as int)[x].txid@ != txid@ by {
            assert(txs@.take(t as int)[x] == txs@[x]);
        }
    }
    false
}


/// Copies a byte vector.
fn copy_bytes(v: &Vec<u8>) -> (r: Vec<u8>)
    ensures
        r@ == v@,
{
    let n = v.len();
    let mut r: Vec<u8> = Vec::new();
    let mut i: usize = 0;
    while i < n
        invariant
            n == v@.len(),
            0 <= i <= n,
            r@ =~= v@.take(i as int),
        decreases n - i,
    {
        r.push(v[i]);
        proof {
            assert(r@ =~= v@.take(i + 1));
        }
        i = i + 1;
    }
    proof {
        assert(v@.take(n as int) =~= v@);
    }
    r
}

/// Whether the staged vector holds the outpoint.
fn contains_outpoint(staged: &Vec<(Vec<u8>, u32)>, txid: &Vec<u8>, vout: u32) -> (r: bool)
    ensures
        r == staged_view(staged@).contains((txid@, vout)),
{
    let n = staged.len();
    let mut i: usize = 0;
    while i < n
        invariant
            n == staged@.len(),
            0 <= i <= n,
            forall|k: int| 0 <= k < i ==> !((#[trigger] staged@[k]).0@ == txid@ && staged@[k].1
                == vout),
        decreases n - i,
    {
        if staged[i].1 == vout && bytes_eq(&staged[i].0, txid) {
            proof {
                assert(staged_view(staged@).contains((txid@, vout)));
            }
            return true;
        }
        i = i + 1;
    }
    proof {
        if staged_view(staged@).contains((txid@, vout)) {
            let w = choose|w: int|
                0 <= w < staged@.len() && (#[trigger] staged@[w]).0@ == txid@ && staged@[w].1
                    == vout;
            assert(false);
        }
    }
    false
}

/// Sum of one transaction's fact output values.
fn tx_value_sum(outs: &Vec<crate::classify::OutputFact>) -> (r: u64)
    requires
        out_value_tx(outs@) <= 0x7fff_ffff_ffff_ffff,
    ensures
        r == out_value_tx(outs@),
{
    let n = outs.len();
    let mut acc: u64 = 0;
    let mut j: usize = 0;
    while j < n
        invariant
            n == outs@.len(),
            0 <= j <= n,
            out_value_tx(outs@) <= 0x7fff_ffff_ffff_ffff,
            acc == out_value_tx(outs@.take(j as int)),
        decreases n - j,
    {
        proof {
            assert(outs@.take(j + 1).drop_last() =~= outs@.take(j as int));
            crate::stats::outputstats::lemma_out_value_take(outs@, j as int);
            crate::stats::outputstats::lemma_out_value_take(outs@, j + 1);
        }
        acc = acc + outs[j].value;
        j = j + 1;
    }
    proof {
        assert(outs@.take(n as int) =~= outs@);
    }
    acc
}

/// Sum of the coinbase transaction's fact output values.
pub fn coinbase_value_sum(facts: &Vec<TxFacts>) -> (r: u64)
    requires
        facts@.len() >= 1,
        out_value_tx(facts@[0].outputs@) <= 0x7fff_ffff_ffff_ffff,
    ensures
        r == out_value_tx(facts@[0].outputs@),
{
    tx_value_sum(&facts[0].outputs)
}

/// Index of the first dust output equals a found witness with no dust
/// before it.
proof fn lemma_first_dust(os: Seq<OutputData>, i: int, j: int)
    requires
        0 <= i <= j < os.len(),
        forall|m: int| i <= m < j ==> !spec_is_dust(#[trigger] os[m]),
        spec_is_dust(os[j]),
    ensures
        first_dust_from(os, i) == j,
    decreases j - i,
{
    if i < j {
        lemma_first_dust(os, i + 1, j);
    }
}


/// Runs the same-block scan of one transaction's inputs over the staged
/// set, consuming staged outpoints as the protocol prescribes.
#[verifier::loop_isolation(false)]
fn scan_tx(
    staged: &mut Vec<(Vec<u8>, u32)>,
    ntx: &TxData,
    block: &Block,
    t: usize,
    child_ok: bool,
    sc0_staged: Ghost<Set<Outpoint>>,
) -> (r: (bool, bool))
    requires
        staged_distinct(old(staged)@),
        staged_view(old(staged)@) == sc0_staged@,
        t < block.txdata@.len(),
        ntx == block.txdata@[t as int],
    ensures
        staged_distinct(final(staged)@),
        ({
            let sc = scan_inputs(
                ntx.inputs@,
                ntx.inputs@.len() as int,
                DustScan { staged: sc0_staged@, newly: false, dust: false },
                block.txdata@.take(t as int),
                child_ok,
            );
            staged_view(final(staged)@) == sc.staged && r.0 == sc.newly && r.1 == sc.dust
        }),
{
    let ghost sc0 = DustScan { staged: sc0_staged@, newly: false, dust: false };
    let ghost xs = block.txdata@;
    let mut newly = false;
    let mut dust = false;
    let mut stop = false;
    let ni = ntx.inputs.len();
    let mut k: usize = 0;
    while k < ni && !stop
        invariant
            0 <= k <= ni,
            staged_distinct(staged@),
            staged_view(staged@) == scan_inputs(ntx.inputs@, k as int, sc0, xs.take(t as int),
                child_ok).staged,
            newly == scan_inputs(ntx.inputs@, k as int, sc0, xs.take(t as int), child_ok).newly,
            dust == scan_inputs(ntx.inputs@, k as int, sc0, xs.take(t as int), child_ok).dust,
            stop == spec_stop(scan_inputs(ntx.inputs@, k as int, sc0, xs.take(t as int),
                child_ok)),
        decreases ni - k,
    {
        let d = &ntx.inputs[k];
        if !d.coinbase {
            if txid_in_prefix(&d.prev_txid, &block.txdata, t) {
                newly = true;
            }
            let took = take_outpoint(staged, &d.prev_txid, d.prev_vout);
            if took && child_ok {
                dust = true;
            }
            let empty_now = staged.len() == 0;
            proof {
                if staged@.len() == 0 {
                    assert(staged_view(staged@) =~= Set::<Outpoint>::empty());
                } else {
                    assert(staged_view(staged@).contains((staged@[0].0@, staged@[0].1)));
                    assert(staged_view(staged@) != Set::<Outpoint>::empty());
                }
            }
            stop = (dust || empty_now) && newly;
        }
        k = k + 1;
    }
    proof {
        if k < ni {
            lemma_scan_frozen(ntx.inputs@, k as int, ni as int, sc0, xs.take(t as int), child_ok);
        }
    }
    (newly, dust)
}

/// Stages the outpoint of a qualifying parent: when exactly one output is
/// below its script's dust threshold, that outpoint joins the staged set.
#[verifier::loop_isolation(false)]
fn stage_single_dust(staged: &mut Vec<(Vec<u8>, u32)>, ntx: &TxData)
    requires
        staged_distinct(old(staged)@),
        ntx.outputs@.len() <= 0x7fff_ffff,
    ensures
        staged_distinct(final(staged)@),
        staged_view(final(staged)@) == if dust_out_count(ntx.outputs@, ntx.outputs@.len() as int)
            == 1 {
            staged_view(old(staged)@).insert(
                (ntx.txid@, first_dust_from(ntx.outputs@, 0) as u32),
            )
        } else {
            staged_view(old(staged)@)
        },
{
    let no = ntx.outputs.len();
    let mut count: usize = 0;
    let mut idx: usize = 0;
    let mut j: usize = 0;
    while j < no
        invariant
            0 <= j <= no,
            count == dust_out_count(ntx.outputs@, j as int),
            count <= j,
            staged@ == old(staged)@,
            count == 0 ==> forall|m: int|
                0 <= m < j ==> !spec_is_dust(#[trigger] ntx.outputs@[m]),
            count >= 1 ==> idx == first_dust_from(ntx.outputs@, 0) && idx < ntx.outputs@.len(),
        decreases no - j,
    {
        let o = &ntx.outputs[j];
        let limit = script_dust_limit(&o.script);
        if o.value < limit {
            if count == 0 {
                idx = j;
                proof {
                    lemma_first_dust(ntx.outputs@, 0, j as int);
                }
            }
            count = count + 1;
        }
        j = j + 1;
    }
    if count == 1 {
        let vout = idx as u32;
        if !contains_outpoint(staged, &ntx.txid, vout) {
            let ghost oldv = staged@;
            staged.push((copy_bytes(&ntx.txid), vout));
            proof {
                assert forall|p: Outpoint| staged_view(staged@).contains(p) implies staged_view(
                    oldv,
                ).insert((ntx.txid@, vout)).contains(p) by {
                    let w = choose|w: int|
                        0 <= w < staged@.len() && (#[trigger] staged@[w]).0@ == p.0 && staged@[w].1
                            == p.1;
                    if w < oldv.len() {
                        assert(oldv[w].0@ == p.0 && oldv[w].1 == p.1);
                    }
                }
                assert forall|p: Outpoint| staged_view(oldv).insert((ntx.txid@, vout)).contains(
                    p,
                ) implies staged_view(staged@).contains(p) by {
                    if p == (ntx.txid@, vout) {
                        assert(staged@[staged@.len() - 1].0@ == p.0 && staged@[staged@.len()
                            - 1].1 == p.1);
                    } else {
                        let w = choose|w: int|
                            0 <= w < oldv.len() && (#[trigger] oldv[w]).0@ == p.0 && oldv[w].1
                                == p.1;
                        assert(staged@[w].0@ == p.0 && staged@[w].1 == p.1);
                    }
                }
                assert(staged_view(staged@) =~= staged_view(oldv).insert((ntx.txid@, vout)));
                assert forall|a: int, b: int| 0 <= a < b < staged@.len() implies !((
                #[trigger] staged@[a]).0@ == (#[trigger] staged@[b]).0@ && staged@[a].1
                    == staged@[b].1) by {
                    if b == staged@.len() - 1 {
                        assert(staged@[a] == oldv[a]);
                        if staged@[a].0@ == ntx.txid@ && staged@[a].1 == vout {
                            assert(staged_view(oldv).contains((ntx.txid@, vout)));
                        }
                    } else {
                        assert(staged@[a] == oldv[a] && staged@[b] == oldv[b]);
                    }
                }
            }
        } else {
            proof {
                assert(staged_view(staged@) =~= staged_view(staged@).insert((ntx.txid@, vout)));
            }
        }
    }
}


/// Adds one transaction's contribution to every simple counter.
#[verifier::rlimit(60)]
fn tally_simple(s: &mut TxStats, ntx: &TxData, tx: &TxFacts, height: u64)
    requires
        old(s).tx_version_1 >= 0, old(s).tx_version_1 < 0x7fff_ffff,
        old(s).tx_version_2 >= 0, old(s).tx_version_2 < 0x7fff_ffff,
        old(s).tx_version_3 >= 0, old(s).tx_version_3 < 0x7fff_ffff,
        old(s).tx_version_unknown >= 0, old(s).tx_version_unknown < 0x7fff_ffff,
        old(s).tx_spending_segwit >= 0, old(s).tx_spending_segwit < 0x7fff_ffff,
        old(s).tx_spending_only_segwit >= 0, old(s).tx_spending_only_segwit < 0x7fff_ffff,
        old(s).tx_spending_only_legacy >= 0, old(s).tx_spending_only_legacy < 0x7fff_ffff,
        old(s).tx_spending_only_taproot >= 0, old(s).tx_spending_only_taproot < 0x7fff_ffff,
        old(s).tx_spending_segwit_and_legacy >= 0, old(s).tx_spending_segwit_and_legacy
            < 0x7fff_ffff,
        old(s).tx_spending_nested_segwit >= 0, old(s).tx_spending_nested_segwit < 0x7fff_ffff,
        old(s).tx_spending_native_segwit >= 0, old(s).tx_spending_native_segwit < 0x7fff_ffff,
        old(s).tx_spending_taproot >= 0, old(s).tx_spending_taproot < 0x7fff_ffff,
        old(s).tx_bip69_compliant >= 0, old(s).tx_bip69_compliant < 0x7fff_ffff,
        old(s).tx_signaling_explicit_rbf >= 0, old(s).tx_signaling_explicit_rbf < 0x7fff_ffff,
        old(s).tx_1_input >= 0, old(s).tx_1_input < 0x7fff_ffff,
        old(s).tx_1_output >= 0, old(s).tx_1_output < 0x7fff_ffff,
        old(s).tx_1_input_1_output >= 0, old(s).tx_1_input_1_output < 0x7fff_ffff,
        old(s).tx_1_input_2_output >= 0, old(s).tx_1_input_2_output < 0x7fff_ffff,
        old(s).tx_timelock_height >= 0, old(s).tx_timelock_height < 0x7fff_ffff,
        old(s).tx_timelock_timestamp >= 0, old(s).tx_timelock_timestamp < 0x7fff_ffff,
        old(s).tx_timelock_not_enforced >= 0, old(s).tx_timelock_not_enforced < 0x7fff_ffff,
        old(s).tx_timelock_too_high >= 0, old(s).tx_timelock_too_high < 0x7fff_ffff,
        old(s).tx_output_amount >= 0,
        out_value_tx(tx.outputs@) >= 0,
        old(s).tx_output_amount + out_value_tx(tx.outputs@) <= 0x7fff_ffff_ffff_ffff,
    ensures
        final(s).height == old(s).height,
        final(s).date == old(s).date,
        final(s).tx_version_1 == old(s).tx_version_1 + ind(g_version(1), *ntx, *tx),
        final(s).tx_version_2 == old(s).tx_version_2 + ind(g_version(2), *ntx, *tx),
        final(s).tx_version_3 == old(s).tx_version_3 + ind(g_version(3), *ntx, *tx),
        final(s).tx_version_unknown == old(s).tx_version_unknown + ind(
            g_version_unknown(),
            *ntx,
            *tx,
        ),
        final(s).tx_output_amount == old(s).tx_output_amount + out_value_tx(tx.outputs@),
        final(s).tx_spending_segwit == old(s).tx_spending_segwit + ind(g_segwit(), *ntx, *tx),
        final(s).tx_spending_only_segwit == old(s).tx_spending_only_segwit + ind(
            g_only_segwit(),
            *ntx,
            *tx,
        ),
        final(s).tx_spending_only_legacy == old(s).tx_spending_only_legacy + ind(
            g_only_legacy(),
            *ntx,
            *tx,
        ),
        final(s).tx_spending_only_taproot == old(s).tx_spending_only_taproot + ind(
            g_only_taproot(),
            *ntx,
            *tx,
        ),
        final(s).tx_spending_segwit_and_legacy == old(s).tx_spending_segwit_and_legacy + ind(
            g_segwit_and_legacy(),
            *ntx,
            *tx,
        ),
        final(s).tx_spending_nested_segwit == old(s).tx_spending_nested_segwit + ind(
            g_nested(),
            *ntx,
            *tx,
        ),
        final(s).tx_spending_native_segwit == old(s).tx_spending_native_segwit + ind(
            g_native(),
            *ntx,
            *tx,
        ),
        final(s).tx_spending_taproot == old(s).tx_spending_taproot + ind(g_taproot(), *ntx, *tx),
        final(s).tx_bip69_compliant == old(s).tx_bip69_compliant + ind(g_bip69(), *ntx, *tx),
        final(s).tx_signaling_explicit_rbf == old(s).tx_signaling_explicit_rbf + ind(
            g_rbf(),
            *ntx,
            *tx,
        ),
        final(s).tx_1_input == old(s).tx_1_input + ind(g_1_input(), *ntx, *tx),
        final(s).tx_1_output == old(s).tx_1_output + ind(g_1_output(), *ntx, *tx),
        final(s).tx_1_input_1_output == old(s).tx_1_input_1_output + ind(
            g_1_input_1_output(),
            *ntx,
            *tx,
        ),
        final(s).tx_1_input_2_output == old(s).tx_1_input_2_output + ind(
            g_1_input_2_output(),
            *ntx,
            *tx,
        ),
        final(s).tx_timelock_height == old(s).tx_timelock_height + ind(g_tl_height(), *ntx, *tx),
        final(s).tx_timelock_timestamp == old(s).tx_timelock_timestamp + ind(
            g_tl_timestamp(),
            *ntx,
            *tx,
        ),
        final(s).tx_timelock_not_enforced == old(s).tx_timelock_not_enforced + ind(
            g_tl_not_enforced(),
            *ntx,
            *tx,
        ),
        final(s).tx_timelock_too_high == old(s).tx_timelock_too_high + ind(
            g_tl_too_high(height as int),
            *ntx,
            *tx,
        ),
        final(s).tx_spending_newly_created_utxos == old(s).tx_spending_newly_created_utxos,
        final(s).tx_spending_ephemeral_dust == old(s).tx_spending_ephemeral_dust,
{
    match ntx.version {
        1u32 => {
            s.tx_version_1 = s.tx_version_1 + 1;
        },
        2u32 => {
            s.tx_version_2 = s.tx_version_2 + 1;
        },
        3u32 => {
            s.tx_version_3 = s.tx_version_3 + 1;
        },
        _ => {
            s.tx_version_unknown = s.tx_version_unknown + 1;
        },
    }
    s.tx_output_amount = s.tx_output_amount + (tx_value_sum(&tx.outputs) as i64);
    let flags = tx.spending_flags();
    if flags.segwit {
        s.tx_spending_segwit = s.tx_spending_segwit + 1;
        if flags.native_segwit {
            s.tx_spending_native_segwit = s.tx_spending_native_segwit + 1;
        }
        if flags.nested_segwit {
            s.tx_spending_nested_segwit = s.tx_spending_nested_segwit + 1;
        }
        if flags.taproot {
            s.tx_spending_taproot = s.tx_spending_taproot + 1;
        }
    }
    if flags.segwit && flags.legacy {
        s.tx_spending_segwit_and_legacy = s.tx_spending_segwit_and_legacy + 1;
    }
    if flags.only_legacy {
        s.tx_spending_only_legacy = s.tx_spending_only_legacy + 1;
    } else if flags.only_segwit {
        s.tx_spending_only_segwit = s.tx_spending_only_segwit + 1;
        if flags.only_taproot {
            s.tx_spending_only_taproot = s.tx_spending_only_taproot + 1;
        }
    }
    if tx.bip69 {
        s.tx_bip69_compliant = s.tx_bip69_compliant + 1;
    }
    if flags.rbf {
        s.tx_signaling_explicit_rbf = s.tx_signaling_explicit_rbf + 1;
    }
    if ntx.inputs.len() == 1 {
        s.tx_1_input = s.tx_1_input + 1;
        if ntx.outputs.len() == 1 {
            s.tx_1_input_1_output = s.tx_1_input_1_output + 1;
        } else if ntx.outputs.len() == 2 {
            s.tx_1_input_2_output = s.tx_1_input_2_output + 1;
        }
    }
    if ntx.outputs.len() == 1 {
        s.tx_1_output = s.tx_1_output + 1;
    }
    if ntx.locktime_is_height() {
        if ntx.lock_time > 0 {
            s.tx_timelock_height = s.tx_timelock_height + 1;
        }
    } else {
        s.tx_timelock_timestamp = s.tx_timelock_timestamp + 1;
    }
    if ntx.lock_time > 0 && !flags.locktime_enabled {
        s.tx_timelock_not_enforced = s.tx_timelock_not_enforced + 1;
    }
    if ntx.locktime_is_height() && (ntx.lock_time as u64) > height {
        s.tx_timelock_too_high = s.tx_timelock_too_high + 1;
    }
}

/// The 0-or-1 contribution of one transaction under a predicate.
pub open spec fn ind(g: spec_fn(TxData, TxFacts) -> bool, x: TxData, f: TxFacts) -> int {
    if g(x, f) {
        1
    } else {
        0
    }
}

impl TxStats {
    /// Derives the transaction statistics of a block.
    ///
    /// Besides the per-transaction buckets, the scan detects same-block
    /// spends against the txids of earlier transactions and runs the
    /// ephemeral-dust staging protocol in block order.
    #[verifier::rlimit(100)]
    pub fn from_block(block: &Block, date: DateYmd, facts: &Vec<TxFacts>) -> (s: TxStats)
        requires
            block.height <= 0x7fff_ffff_ffff_ffff,
            facts@.len() == block.txdata@.len(),
            block.txdata@.len() <= 0x7fff_ffff,
            crate::model::total_outputs(block.txdata@) <= 0x7fff_ffff,
            out_value_total(facts@) <= 0x7fff_ffff_ffff_ffff,
        ensures
            s.height == block.height,
            s.date == date,
            s.tx_version_1 == txcount(block.txdata@, facts@, g_version(1)),
            s.tx_version_2 == txcount(block.txdata@, facts@, g_version(2)),
            s.tx_version_3 == txcount(block.txdata@, facts@, g_version(3)),
            s.tx_version_unknown == txcount(block.txdata@, facts@, g_version_unknown()),
            s.tx_output_amount == out_value_total(facts@),
            s.tx_spending_segwit == txcount(block.txdata@, facts@, g_segwit()),
            s.tx_spending_only_segwit == txcount(block.txdata@, facts@, g_only_segwit()),
            s.tx_spending_only_legacy == txcount(block.txdata@, facts@, g_only_legacy()),
            s.tx_spending_only_taproot == txcount(block.txdata@, facts@, g_only_taproot()),
            s.tx_spending_segwit_and_legacy == txcount(
                block.txdata@,
                facts@,
                g_segwit_and_legacy(),
            ),
            s.tx_spending_nested_segwit == txcount(block.txdata@, facts@, g_nested()),
            s.tx_spending_native_segwit == txcount(block.txdata@, facts@, g_native()),
            s.tx_spending_taproot == txcount(block.txdata@, facts@, g_taproot()),
            s.tx_bip69_compliant == txcount(block.txdata@, facts@, g_bip69()),
            s.tx_signaling_explicit_rbf == txcount(block.txdata@, facts@, g_rbf()),
            s.tx_1_input == txcount(block.txdata@, facts@, g_1_input()),
            s.tx_1_output == txcount(block.txdata@, facts@, g_1_output()),
            s.tx_1_input_1_output == txcount(block.txdata@, facts@, g_1_input_1_output()),
            s.tx_1_input_2_output == txcount(block.txdata@, facts@, g_1_input_2_output()),
            s.tx_spending_newly_created_utxos == dust_fold(
                block.txdata@,
                block.txdata@.len() as int,
            ).newly,
            s.tx_spending_ephemeral_dust == dust_fold(
                block.txdata@,
                block.txdata@.len() as int,
            ).dust,
            s.tx_timelock_height == txcount(block.txdata@, facts@, g_tl_height()),
            s.tx_timelock_timestamp == txcount(block.txdata@, facts@, g_tl_timestamp()),
            s.tx_timelock_not_enforced == txcount(block.txdata@, facts@, g_tl_not_enforced()),
            s.tx_timelock_too_high == txcount(
                block.txdata@,
                facts@,
                g_tl_too_high(block.height as int),
            ),
    {
        let mut s = TxStats {
            height: block.height as i64,
            date,
            tx_version_1: 0, tx_version_2: 0, tx_version_3: 0, tx_version_unknown: 0,
            tx_output_amount: 0,
            tx_spending_segwit: 0, tx_spending_only_segwit: 0, tx_spending_only_legacy: 0,
            tx_spending_only_taproot: 0, tx_spending_segwit_and_legacy: 0,
            tx_spending_nested_segwit: 0, tx_spending_native_segwit: 0, tx_spending_taproot: 0,
            tx_bip69_compliant: 0, tx_signaling_explicit_rbf: 0,
            tx_1_input: 0, tx_1_output: 0, tx_1_input_1_output: 0, tx_1_input_2_output: 0,
            tx_spending_newly_created_utxos: 0, tx_spending_ephemeral_dust: 0,
            tx_timelock_height: 0, tx_timelock_timestamp: 0, tx_timelock_not_enforced: 0,
            tx_timelock_too_high: 0,
        };
        let ghost xs = block.txdata@;
        let ghost fs = facts@;
        let mut staged: Vec<(Vec<u8>, u32)> = Vec::new();
        let n = facts.len();
        let mut t: usize = 0;
        proof {
            assert(staged_view(staged@) =~= Set::<Outpoint>::empty());
        }
        while t < n
            invariant
                0 <= t <= n,
                n == facts@.len(),
                n == block.txdata@.len(),
                xs == block.txdata@,
                fs == facts@,
                n <= 0x7fff_ffff,
                block.height <= 0x7fff_ffff_ffff_ffff,
                crate::model::total_outputs(block.txdata@) <= 0x7fff_ffff,
                out_value_total(facts@) <= 0x7fff_ffff_ffff_ffff,
                staged_distinct(staged@),
                staged_view(staged@) == dust_fold(xs, t as int).staged,
                s.height == block.height as i64,
                s.date == date,
                s.tx_version_1 == txcount(xs.take(t as int), fs.take(t as int), g_version(1)),
                s.tx_version_2 == txcount(xs.take(t as int), fs.take(t as int), g_version(2)),
                s.tx_version_3 == txcount(xs.take(t as int), fs.take(t as int), g_version(3)),
                s.tx_version_unknown == txcount(xs.take(t as int), fs.take(t as int),
                    g_version_unknown()),
                s.tx_output_amount == amount_upto(fs, t as int),
                s.tx_spending_segwit == txcount(xs.take(t as int), fs.take(t as int), g_segwit()),
                s.tx_spending_only_segwit == txcount(xs.take(t as int), fs.take(t as int),
                    g_only_segwit()),
                s.tx_spending_only_legacy == txcount(xs.take(t as int), fs.take(t as int),
                    g_only_legacy()),
                s.tx_spending_only_taproot == txcount(xs.take(t as int), fs.take(t as int),
                    g_only_taproot()),
                s.tx_spending_segwit_and_legacy == txcount(xs.take(t as int), fs.take(t as int),
                    g_segwit_and_legacy()),
                s.tx_spending_nested_segwit == txcount(xs.take(t as int), fs.take(t as int),
                    g_nested()),
                s.tx_spending_native_segwit == txcount(xs.take(t as int), fs.take(t as int),
                    g_native()),
                s.tx_spending_taproot == txcount(xs.take(t as int), fs.take(t as int),
                    g_taproot()),
                s.tx_bip69_compliant == txcount(xs.take(t as int), fs.take(t as int), g_bip69()),
                s.tx_signaling_explicit_rbf == txcount(xs.take(t as int), fs.take(t as int),
                    g_rbf()),
                s.tx_1_input == txcount(xs.take(t as int), fs.take(t as int), g_1_input()),
                s.tx_1_output == txcount(xs.take(t as int), fs.take(t as int), g_1_output()),
                s.tx_1_input_1_output == txcount(xs.take(t as int), fs.take(t as int),
                    g_1_input_1_output()),
                s.tx_1_input_2_output == txcount(xs.take(t as int), fs.take(t as int),
                    g_1_input_2_output()),
                s.tx_spending_newly_created_utxos == dust_fold(xs, t as int).newly,
                s.tx_spending_ephemeral_dust == dust_fold(xs, t as int).dust,
                s.tx_timelock_height == txcount(xs.take(t as int), fs.take(t as int),
                    g_tl_height()),
                s.tx_timelock_timestamp == txcount(xs.take(t as int), fs.take(t as int),
                    g_tl_timestamp()),
                s.tx_timelock_not_enforced == txcount(xs.take(t as int), fs.take(t as int),
                    g_tl_not_enforced()),
                s.tx_timelock_too_high == txcount(xs.take(t as int), fs.take(t as int),
                    g_tl_too_high(block.height as int)),
            decreases n - t,
        {
            proof {
                assert(xs.take(t + 1).drop_last() =~= xs.take(t as int));
                assert(fs.take(t + 1).drop_last() =~= fs.take(t as int));
                lemma_txcount_le(xs.take(t as int), fs.take(t as int));
                lemma_dust_fold_bounds(xs, t as int);
                lemma_amount_upto(fs, t as int);
                lemma_amount_upto(fs, t + 1);
            }
            let tx = &facts[t];
            let ntx = &block.txdata[t];
            proof {
                lemma_txcount_le(xs.take(t + 1), fs.take(t + 1));
                crate::stats::outputstats::lemma_out_bounds_tx(tx.outputs@);
            }
            tally_simple(&mut s, ntx, tx, block.height);

            // Same-block spend detection and staged-outpoint consumption,
            // in input order, with the early stop of the original scan.
            let child_ok = ntx.version == 3 && (match ntx.fee {
                Some(f) => f != 0,
                None => false,
            }) && ntx.vsize <= 1000;
            let (newly, dust) = scan_tx(&mut staged, ntx, block, t, child_ok, Ghost(
                dust_fold(xs, t as int).staged,
            ));
            if newly {
                s.tx_spending_newly_created_utxos = s.tx_spending_newly_created_utxos + 1;
            }
            if dust {
                s.tx_spending_ephemeral_dust = s.tx_spending_ephemeral_dust + 1;
            }

            // Ephemeral-dust staging: a qualifying parent with exactly one
            // dust output stages that outpoint.
            let parent_ok = ntx.version == 3 && (match ntx.fee {
                Some(f) => f == 0,
                None => false,
            }) && ntx.vsize <= 10_000;
            if parent_ok {
                proof {
                    crate::model::lemma_total_outputs_elem(xs, t as int);
                }
                stage_single_dust(&mut staged, ntx);
            }
            proof {
                assert(staged_view(staged@) == dust_fold(xs, t + 1).staged);
            }
            t = t + 1;
        }
        proof {
            assert(xs.take(n as int) =~= xs);
            assert(fs.take(n as int) =~= fs);
            lemma_amount_upto(fs, n as int);
        }
        s
    }
}

} // verus!
