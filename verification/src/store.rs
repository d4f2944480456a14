//! The store's semantic model: one bundle row per height, upserted in
//! batches.
//!
//! The durable store keeps at most one row per height and sibling table;
//! writing a batch replaces existing rows at the same heights, which makes
//! replays and version bumps convergent.  The model here fixes that
//! semantics; the database front end mirrors it.

use vstd::prelude::*;

use crate::stats::Stats;
use crate::STATS_VERSION;

verus! {

/// The map a row list denotes: height to the bundle stored at it.
pub open spec fn map_of(rows: Seq<Stats>) -> Map<i64, Stats>
    decreases rows.len(),
{
    if rows.len() == 0 {
        Map::empty()
    } else {
        map_of(rows.drop_last()).insert(rows.last().block.height, rows.last())
    }
}

/// The map after upserting the first `i` bundles of a batch.
pub open spec fn upsert_all(m: Map<i64, Stats>, batch: Seq<Stats>, i: int) -> Map<i64, Stats>
    decreases i,
{
    if i <= 0 {
        m
    } else {
        let prev = upsert_all(m, batch, i - 1);
        if i - 1 < batch.len() {
            prev.insert(batch[i - 1].block.height, batch[i - 1])
        } else {
            prev
        }
    }
}

/// In-memory statistics store, keyed by block height.
pub struct StatsStore {
    rows: Vec<Stats>,
}

/// No two rows share a height.
pub open spec fn rows_unique(rows: Seq<Stats>) -> bool {
    forall|i: int, j: int|
        0 <= i < j < rows.len() ==> (#[trigger] rows[i]).block.height != (
        #[trigger] rows[j]).block.height
}

impl StatsStore {
    /// The height-to-bundle map this store holds.
    pub closed spec fn view_map(self) -> Map<i64, Stats> {
        map_of(self.rows@)
    }

    /// The store's single invariant: heights are unique.
    pub closed spec fn wf(self) -> bool {
        rows_unique(self.rows@)
    }

    /// An empty store.
    pub fn new() -> (r: StatsStore)
        ensures
            r.wf(),
            r.view_map() == Map::<i64, Stats>::empty(),
    {
        StatsStore { rows: Vec::new() }
    }

    /// Upserts one bundle: the row at its height is replaced, any other
    /// row is kept.
    fn put(&mut self, stat: Stats)
        requires
            old(self).wf(),
        ensures
            final(self).wf(),
            final(self).view_map() == old(self).view_map().insert(
                stat.block.height,
                stat,
            ),
    {
        let n = self.rows.len();
        let mut i: usize = 0;
        while i < n
            invariant
                0 <= i <= n,
                n == self.rows@.len(),
                self.rows@ == old(self).rows@,
                rows_unique(self.rows@),
                forall|k: int|
                    0 <= k < i ==> (#[trigger] self.rows@[k]).block.height
                        != stat.block.height,
            decreases n - i,
        {
            if self.rows[i].block.height == stat.block.height {
                let ghost oldrows = self.rows@;
                self.rows.set(i, stat);
                proof {
                    lemma_map_of_update(oldrows, i as int, stat);
                }
                return;
            }
            i = i + 1;
        }
        let ghost oldrows = self.rows@;
        self.rows.push(stat);
        proof {
            assert(self.rows@.drop_last() =~= oldrows);
        }
    }

    /// Upserts a whole batch atomically: rows at the batch's heights are
    /// replaced (the later entry winning within the batch), all others
    /// are kept.
    pub fn insert_stats(&mut self, batch: &Vec<Stats>)
        requires
            old(self).wf(),
        ensures
            final(self).wf(),
            final(self).view_map() == upsert_all(
                old(self).view_map(),
                batch@,
                batch@.len() as int,
            ),
    {
        let n = batch.len();
        let mut i: usize = 0;
        while i < n
            invariant
                0 <= i <= n,
                n == batch@.len(),
                self.wf(),
                self.view_map() == upsert_all(old(self).view_map(), batch@, i as int),
            decreases n - i,
        {
            self.put(batch[i]);
            i = i + 1;
        }
    }

    /// The heights whose stored bundle carries at least the asked
    /// version; each appears once.
    pub fn heights_up_to_date(&self, version: i32) -> (r: Vec<i64>)
        requires
            self.wf(),
        ensures
            forall|h: i64|
                #[trigger] r@.contains(h) <==> (self.view_map().contains_key(h)
                    && self.view_map()[h].block.stats_version >= version),
    {
        let n = self.rows.len();
        let mut r: Vec<i64> = Vec::new();
        let mut i: usize = 0;
        while i < n
            invariant
                0 <= i <= n,
                n == self.rows@.len(),
                self.wf(),
                forall|h: i64|
                    #[trigger] r@.contains(h) <==> exists|k: int|
                        0 <= k < i && (#[trigger] self.rows@[k]).block.height == h
                            && self.rows@[k].block.stats_version >= version,
            decreases n - i,
        {
            let ghost oldr = r@;
            if self.rows[i].block.stats_version >= version {
                r.push(self.rows[i].block.height);
                proof {
                    assert forall|h: i64| #[trigger] r@.contains(h) implies exists|k: int|
                        0 <= k < i + 1 && (#[trigger] self.rows@[k]).block.height == h
                            && self.rows@[k].block.stats_version >= version by {
                        if h == self.rows@[i as int].block.height {
                            assert(0 <= i < i + 1 && self.rows@[i as int].block.height == h
                                && self.rows@[i as int].block.stats_version >= version);
                        } else {
                            let w = choose|w: int| 0 <= w < oldr.len() && oldr[w] == h;
                            assert(oldr.contains(h));
                        }
                    }
                    assert forall|h: i64|
                        (exists|k: int|
                            0 <= k < i + 1 && (#[trigger] self.rows@[k]).block.height == h
                                && self.rows@[k].block.stats_version
                                >= version) implies #[trigger] r@.contains(h) by {
                        let k = choose|k: int|
                            0 <= k < i + 1 && (#[trigger] self.rows@[k]).block.height == h
                                && self.rows@[k].block.stats_version >= version;
                        if k == i {
                            assert(r@[r@.len() - 1] == h);
                        } else {
                            assert(oldr.contains(h));
                            let w = choose|w: int| 0 <= w < oldr.len() && oldr[w] == h;
                            assert(r@[w] == h);
                        }
                    }
                }
            } else {
                proof {
                    assert forall|h: i64| #[trigger] r@.contains(h) implies exists|k: int|
                        0 <= k < i + 1 && (#[trigger] self.rows@[k]).block.height == h
                            && self.rows@[k].block.stats_version >= version by {
                        let w = choose|w: int|
                            0 <= w < i && (#[trigger] self.rows@[w]).block.height == h
                                && self.rows@[w].block.stats_version >= version;
                        assert(0 <= w < i + 1);
                    }
                }
            }
            i = i + 1;
        }
        proof {
            lemma_rows_map_char(self.rows@);
        }
        r
    }
}

/// Replacing the row that holds a height denotes the same map as
/// inserting at that height.
proof fn lemma_map_of_update(rows: Seq<Stats>, i: int, stat: Stats)
    requires
        rows_unique(rows),
        0 <= i < rows.len(),
        rows[i].block.height == stat.block.height,
        forall|k: int| 0 <= k < i ==> (#[trigger] rows[k]).block.height != stat.block.height,
    ensures
        rows_unique(rows.update(i, stat)),
        map_of(rows.update(i, stat)) == map_of(rows).insert(stat.block.height, stat),
    decreases rows.len(),
{
    let updated = rows.update(i, stat);
    if i == rows.len() - 1 {
        assert(updated.drop_last() =~= rows.drop_last());
        assert(updated.last() == stat);
        assert(map_of(updated) == map_of(rows.drop_last()).insert(stat.block.height, stat));
        assert(map_of(rows) == map_of(rows.drop_last()).insert(
            rows.last().block.height,
            rows.last(),
        ));
        assert(map_of(rows).insert(stat.block.height, stat) =~= map_of(rows.drop_last()).insert(
            stat.block.height,
            stat,
        ));
    } else {
        assert(updated.drop_last() =~= rows.drop_last().update(i, stat));
        assert(updated.last() == rows.last());
        lemma_map_of_update(rows.drop_last(), i, stat);
        assert(rows.last().block.height != stat.block.height);
        assert(map_of(updated) == map_of(rows.drop_last()).insert(
            stat.block.height,
            stat,
        ).insert(rows.last().block.height, rows.last()));
        assert(map_of(rows.drop_last()).insert(stat.block.height, stat).insert(
            rows.last().block.height,
            rows.last(),
        ) =~= map_of(rows.drop_last()).insert(rows.last().block.height, rows.last()).insert(
            stat.block.height,
            stat,
        ));
    }
}

/// A row list with unique heights denotes a map whose keys are exactly
/// the heights it holds.
proof fn lemma_rows_map_char(rows: Seq<Stats>)
    requires
        rows_unique(rows),
    ensures
        forall|h: i64|
            map_of(rows).contains_key(h) <==> exists|k: int|
                0 <= k < rows.len() && (#[trigger] rows[k]).block.height == h,
        forall|k: int|
            0 <= k < rows.len() ==> map_of(rows)[(#[trigger] rows[k]).block.height] == rows[k],
    decreases rows.len(),
{
    if rows.len() > 0 {
        lemma_rows_map_char(rows.drop_last());
        assert forall|k: int| 0 <= k < rows.len() implies map_of(rows)[(
        #[trigger] rows[k]).block.height] == rows[k] by {
            if k < rows.len() - 1 {
                assert(rows[k] == rows.drop_last()[k]);
                assert(rows[rows.len() - 1].block.height != rows[k].block.height);
            }
        }
        assert forall|h: i64| map_of(rows).contains_key(h) implies exists|k: int|
            0 <= k < rows.len() && (#[trigger] rows[k]).block.height == h by {
            if h == rows.last().block.height {
                assert(rows[rows.len() - 1].block.height == h);
            } else {
                assert(map_of(rows.drop_last()).contains_key(h));
                let k = choose|k: int|
                    0 <= k < rows.drop_last().len() && (#[trigger] rows.drop_last()[k])
                        .block.height == h;
                assert(rows[k].block.height == h);
            }
        }
        assert forall|h: i64|
            (exists|k: int|
                0 <= k < rows.len() && (#[trigger] rows[k]).block.height
                    == h) implies map_of(rows).contains_key(h) by {
            let k = choose|k: int|
                0 <= k < rows.len() && (#[trigger] rows[k]).block.height == h;
            if k == rows.len() - 1 {
            } else {
                assert(rows.drop_last()[k].block.height == h);
                assert(map_of(rows.drop_last()).contains_key(h));
            }
        }
    }
}

/// Upserting a batch twice leaves the same store as upserting it once:
/// batch writes are idempotent.
pub proof fn lemma_insert_idempotent(m: Map<i64, Stats>, batch: Seq<Stats>)
    ensures
        upsert_all(upsert_all(m, batch, batch.len() as int), batch, batch.len() as int)
            == upsert_all(m, batch, batch.len() as int),
{
    let once = upsert_all(m, batch, batch.len() as int);
    let twice = upsert_all(once, batch, batch.len() as int);
    assert forall|h: i64| #[trigger] twice.contains_key(h) <==> once.contains_key(h) by {
        lemma_upsert_char(m, batch, batch.len() as int, h);
        lemma_upsert_char(once, batch, batch.len() as int, h);
    }
    assert forall|h: i64| once.contains_key(h) implies #[trigger] twice[h] == once[h] by {
        lemma_upsert_char(m, batch, batch.len() as int, h);
        lemma_upsert_char(once, batch, batch.len() as int, h);
    }
    assert(twice =~= once);
}

/// What one key holds after a batch upsert: the last batch entry at that
/// height, or what the store held before.
pub proof fn lemma_upsert_char(m: Map<i64, Stats>, batch: Seq<Stats>, i: int, h: i64)
    requires
        0 <= i <= batch.len(),
    ensures
        (exists|k: int| 0 <= k < i && (#[trigger] batch[k]).block.height == h) ==> {
            let k = last_at(batch, i, h);
            upsert_all(m, batch, i).contains_key(h) && upsert_all(m, batch, i)[h] == batch[k]
        },
        !(exists|k: int| 0 <= k < i && (#[trigger] batch[k]).block.height == h) ==> (upsert_all(
            m,
            batch,
            i,
        ).contains_key(h) <==> m.contains_key(h)) && (m.contains_key(h) ==> upsert_all(
            m,
            batch,
            i,
        )[h] == m[h]),
    decreases i,
{
    if i > 0 {
        lemma_upsert_char(m, batch, i - 1, h);
    }
}

/// The index of the last batch entry at the height.
pub open spec fn last_at(batch: Seq<Stats>, i: int, h: i64) -> int
    decreases i,
{
    if i <= 0 {
        -1
    } else if batch[i - 1].block.height == h {
        i - 1
    } else {
        last_at(batch, i - 1, h)
    }
}

/// Skip correctness: after upserting bundles that carry the current
/// version for every height of a range, each of those heights is
/// up to date.
pub proof fn lemma_skip_correct(
    m: Map<i64, Stats>,
    batch: Seq<Stats>,
    lo: i64,
    hi: i64,
    h: i64,
)
    requires
        lo <= h < hi,
        exists|k: int| 0 <= k < batch.len() && (#[trigger] batch[k]).block.height == h,
        forall|k: int|
            0 <= k < batch.len() ==> (#[trigger] batch[k]).block.stats_version >= STATS_VERSION,
    ensures
        upsert_all(m, batch, batch.len() as int).contains_key(h),
        upsert_all(m, batch, batch.len() as int)[h].block.stats_version >= STATS_VERSION,
{
    lemma_upsert_char(m, batch, batch.len() as int, h);
    lemma_last_at_props(batch, batch.len() as int, h);
}

proof fn lemma_last_at_props(batch: Seq<Stats>, i: int, h: i64)
    requires
        0 <= i <= batch.len(),
        exists|k: int| 0 <= k < i && (#[trigger] batch[k]).block.height == h,
    ensures
        0 <= last_at(batch, i, h) < i,
        batch[last_at(batch, i, h)].block.height == h,
    decreases i,
{
    if i > 0 {
        if batch[i - 1].block.height == h {
        } else {
            let k = choose|k: int| 0 <= k < i && (#[trigger] batch[k]).block.height == h;
            assert(0 <= k < i - 1);
            lemma_last_at_props(batch, i - 1, h);
        }
    }
}

} // verus!
