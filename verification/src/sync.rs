//! Sync planning: which heights to process, and how bundles are batched
//! for the writer.
//!
//! The orchestration itself (fetching over the network, the worker
//! pipeline, the durable writes) lives with the program front end; the
//! decisions it follows are fixed here.

use vstd::prelude::*;

use crate::stats::Stats;
use crate::{DATABASE_BATCH_SIZE, REORG_SAFETY_MARGIN};

verus! {

/// Why a run refuses to start.
#[derive(Clone, Copy, Debug, PartialEq, Eq, Structural)]
pub enum SyncError {
    /// The node is still in its initial block download; its view of the
    /// tip is incomplete and the derived data would be unstable.
    IBDNotDone,
}

/// The highest height a run may process: the reported tip minus the
/// reorg safety margin, not below zero.
pub open spec fn spec_fetch_height(tip: u64) -> int {
    if tip >= REORG_SAFETY_MARGIN {
        tip - REORG_SAFETY_MARGIN
    } else {
        0
    }
}

/// Plans the heights of a run: every height from the start (default 0)
/// up to the fetch height that is not already up to date, in ascending
/// order.
///
/// Refuses exactly when the node reports an initial block download.
pub fn plan_heights(tip: u64, ibd: bool, start_height: Option<u64>, uptodate: &Vec<i64>) -> (r:
    Result<Vec<i64>, SyncError>)
    requires
        tip <= 0x7fff_ffff_ffff_ffff,
    ensures
        r is Err <==> ibd,
        r matches Err(e) ==> e == SyncError::IBDNotDone,
        r matches Ok(plan) ==> {
            &&& forall|h: i64|
                #[trigger] plan@.contains(h) <==> ({
                    let s = match start_height {
                        Some(s) => s as int,
                        None => 0int,
                    };
                    s <= h < spec_fetch_height(tip) && !uptodate@.contains(h)
                })
            &&& forall|a: int, b: int|
                0 <= a < b < plan@.len() ==> plan@[a] < plan@[b]
        },
{
    if ibd {
        return Err(SyncError::IBDNotDone);
    }
    let fetch: u64 = if tip >= REORG_SAFETY_MARGIN {
        tip - REORG_SAFETY_MARGIN
    } else {
        0
    };
    let start: u64 = match start_height {
        Some(s) => s,
        None => 0,
    };
    let mut plan: Vec<i64> = Vec::new();
    let mut h: u64 = start;
    while h < fetch
        invariant
            start <= h <= fetch || (h == start && start >= fetch),
            fetch <= 0x7fff_ffff_ffff_ffff,
            forall|g: i64|
                #[trigger] plan@.contains(g) <==> (start <= g < h && !uptodate@.contains(g)),
            forall|a: int, b: int| 0 <= a < b < plan@.len() ==> plan@[a] < plan@[b],
            forall|a: int| 0 <= a < plan@.len() ==> plan@[a] < h,
        decreases fetch - h,
    {
        let ghost oldp = plan@;
        if !contains_height(uptodate, h as i64) {
            plan.push(h as i64);
            proof {
                assert forall|g: i64| #[trigger] plan@.contains(g) implies (start <= g < h + 1
                    && !uptodate@.contains(g)) by {
                    if g != h as i64 {
                        let w = choose|w: int| 0 <= w < oldp.len() && oldp[w] == g;
                        assert(oldp.contains(g));
                    }
                }
                assert forall|g: i64|
                    (start <= g < h + 1 && !uptodate@.contains(g)) implies #[trigger] plan@
                    .contains(g) by {
                    if g == h as i64 {
                        assert(plan@[plan@.len() - 1] == g);
                    } else {
                        assert(oldp.contains(g));
                        let w = choose|w: int| 0 <= w < oldp.len() && oldp[w] == g;
                        assert(plan@[w] == g);
                    }
                }
            }
        } else {
            proof {
                assert forall|g: i64|
                    (start <= g < h + 1 && !uptodate@.contains(g)) implies #[trigger] plan@
                    .contains(g) by {
                    assert(g != h as i64);
                }
            }
        }
        h = h + 1;
    }
    Ok(plan)
}

/// Whether the list holds the height.
fn contains_height(v: &Vec<i64>, h: i64) -> (r: bool)
    ensures
        r == v@.contains(h),
{
    let n = v.len();
    let mut i: usize = 0;
    while i < n
        invariant
            0 <= i <= n,
            n == v@.len(),
            forall|k: int| 0 <= k < i ==> v@[k] != h,
        decreases n - i,
    {
        if v[i] == h {
            return true;
        }
        i = i + 1;
    }
    proof {
        if v@.contains(h) {
            let w = choose|w: int| 0 <= w < v@.len() && v@[w] == h;
            assert(false);
        }
    }
    false
}

/// The writer's batch buffer: bundles accumulate until a full batch is
/// ready to commit in one transaction.
pub struct BatchBuffer {
    buf: Vec<Stats>,
}

impl BatchBuffer {
    /// What the buffer currently holds.
    pub closed spec fn view_buf(self) -> Seq<Stats> {
        self.buf@
    }

    /// The buffer never reaches a full batch between pushes.
    pub closed spec fn wf(self) -> bool {
        self.buf@.len() < DATABASE_BATCH_SIZE
    }

    /// An empty buffer.
    pub fn new() -> (r: BatchBuffer)
        ensures
            r.wf(),
            r.view_buf() == Seq::<Stats>::empty(),
    {
        let r = BatchBuffer { buf: Vec::new() };
        proof {
            assert(r.buf@ =~= Seq::<Stats>::empty());
        }
        r
    }

    /// Accepts one bundle; hands back a full batch once the batch size is
    /// reached, in arrival order.
    pub fn push(&mut self, stat: Stats) -> (r: Option<Vec<Stats>>)
        requires
            old(self).wf(),
        ensures
            final(self).wf(),
            old(self).view_buf().len() + 1 == DATABASE_BATCH_SIZE ==> (r matches Some(b)
                && b@ == old(self).view_buf().push(stat) && final(self).view_buf()
                == Seq::<Stats>::empty()),
            old(self).view_buf().len() + 1 < DATABASE_BATCH_SIZE ==> (r is None
                && final(self).view_buf() == old(self).view_buf().push(stat)),
    {
        self.buf.push(stat);
        if self.buf.len() >= DATABASE_BATCH_SIZE {
            let mut out: Vec<Stats> = Vec::new();
            std::mem::swap(&mut out, &mut self.buf);
            proof {
                assert(self.buf@ =~= Seq::<Stats>::empty());
            }
            Some(out)
        } else {
            None
        }
    }

    /// Hands back whatever remains for the final partial commit.
    pub fn flush(&mut self) -> (r: Vec<Stats>)
        ensures
            final(self).wf(),
            r@ == old(self).view_buf(),
            final(self).view_buf() == Seq::<Stats>::empty(),
    {
        let mut out: Vec<Stats> = Vec::new();
        std::mem::swap(&mut out, &mut self.buf);
        proof {
            assert(self.buf@ =~= Seq::<Stats>::empty());
        }
        out
    }
}

} // verus!
