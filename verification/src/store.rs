//! The record store: a durable keyed mapping from video id to the
//! current revision of its record.  Every read and write of catalog data
//! goes through it.

use vstd::prelude::*;

verus! {

use crate::text::lower_of;
use crate::text::lowercase;
use crate::types::Video;
use crate::types::VideoView;
use crate::types::stamped;
use crate::types::views_of;
use vstd::pervasive::VecAdditionalExecFns;

/// Some row of `rows` carries the id.
pub open spec fn has_id(rows: Seq<VideoView>, id: Seq<char>) -> bool {
    exists|j: int| 0 <= j < rows.len() && rows[j].id == id
}

/// The row index carrying the id (meaningful only when `has_id` holds
/// and ids are unique).
pub open spec fn idx_of(rows: Seq<VideoView>, id: Seq<char>) -> int {
    choose|j: int| 0 <= j < rows.len() && rows[j].id == id
}

/// No two rows carry the same id.
pub open spec fn ids_unique(rows: Seq<VideoView>) -> bool {
    forall|i: int, j: int| 0 <= i < j < rows.len() ==> rows[i].id != rows[j].id
}

/// The rows after an upsert of `v`: the row carrying `v.id` is replaced
/// wholesale if one exists, else `v` is appended.
pub open spec fn spec_put(rows: Seq<VideoView>, v: VideoView) -> Seq<VideoView> {
    if has_id(rows, v.id) {
        rows.update(idx_of(rows, v.id), v)
    } else {
        rows.push(v)
    }
}

/// The rows whose channel lowers to `key`, in store order.
pub open spec fn spec_by_lowered(rows: Seq<VideoView>, key: Seq<char>) -> Seq<VideoView> {
    rows.filter(|v: VideoView| lower_of(v.channel) == key)
}

/// The rows whose lowercase channel equals the lowercase query, in
/// store order: a case-insensitive exact match.
pub open spec fn spec_by_channel(rows: Seq<VideoView>, channel: Seq<char>) -> Seq<VideoView> {
    spec_by_lowered(rows, lower_of(channel))
}

/// With unique ids, a row carrying `id` at index `i` is the row
/// `idx_of` picks.
pub proof fn lemma_idx_of(rows: Seq<VideoView>, id: Seq<char>, i: int)
    requires
        ids_unique(rows),
        0 <= i < rows.len(),
        rows[i].id == id,
    ensures
        has_id(rows, id),
        idx_of(rows, id) == i,
{
    assert(has_id(rows, id));
    let j = idx_of(rows, id);
    if j != i {
        if j < i {
            assert(rows[j].id != rows[i].id);
        } else {
            assert(rows[i].id != rows[j].id);
        }
    }
}

pub struct Store {
    videos: Vec<Video>,
}

impl Store {
    /// The store's contents: the current revisions, in store order.
    pub closed spec fn rows(&self) -> Seq<VideoView> {
        self.videos@.map_values(|v: Video| v@)
    }

    /// The store's invariant: at most one revision per id.
    pub open spec fn wf(&self) -> bool {
        ids_unique(self.rows())
    }

    pub fn new() -> (s: Store)
        ensures
            s.rows() == Seq::<VideoView>::empty(),
            s.wf(),
    {
        let s = Store { videos: Vec::new() };
        proof {
            assert(s.rows() =~= Seq::<VideoView>::empty());
        }
        s
    }

    pub fn size(&self) -> (n: usize)
        ensures
            n == self.rows().len(),
    {
        self.videos.len()
    }

    fn find(&self, id: &String) -> (r: Option<usize>)
        ensures
            match r {
                Some(i) => i < self.rows().len() && self.rows()[i as int].id == id@,
                None => !has_id(self.rows(), id@),
            },
    {
        let n = self.videos.len();
        let mut i: usize = 0;
        while i < n
            invariant
                n == self.videos.len(),
                i <= n,
                forall|k: int| 0 <= k < i ==> self.rows()[k].id != id@,
            decreases n - i,
        {
            if self.videos[i].id == *id {
                return Some(i);
            }
            i = i + 1;
        }
        None
    }

    /// The current revision at `id`, if any.
    pub fn get(&self, id: &String) -> (r: Option<Video>)
        requires
            self.wf(),
        ensures
            match r {
                Some(v) => has_id(self.rows(), id@) && v@ == self.rows()[idx_of(self.rows(), id@)],
                None => !has_id(self.rows(), id@),
            },
    {
        match self.find(id) {
            Some(i) => {
                proof {
                    lemma_idx_of(self.rows(), id@, i as int);
                }
                Some(self.videos[i].clone())
            },
            None => None,
        }
    }

    /// Inserts or wholesale-replaces the record at its id, stamping
    /// `fetched_at` with the write time `now`.
    pub fn put(&mut self, v: Video, now: i64)
        requires
            old(self).wf(),
        ensures
            final(self).wf(),
            final(self).rows() == spec_put(old(self).rows(), stamped(v@, now)),
            final(self).rows().len() <= old(self).rows().len() + 1,
    {
        let ghost rows0 = self.rows();
        let ghost w = stamped(v@, now);
        let mut record = v;
        record.fetched_at = now;
        assert(record@ == w);
        match self.find(&record.id) {
            Some(i) => {
                proof {
                    lemma_idx_of(rows0, w.id, i as int);
                }
                self.videos.set(i, record);
                proof {
                    assert(self.rows() =~= rows0.update(i as int, w));
                    assert forall|p: int, q: int|
                        0 <= p < q < self.rows().len() implies self.rows()[p].id
                        != self.rows()[q].id by {
                        assert(rows0[p].id != rows0[q].id);
                    }
                }
            },
            None => {
                self.videos.push(record);
                proof {
                    assert(self.rows() =~= rows0.push(w));
                    assert forall|p: int, q: int|
                        0 <= p < q < self.rows().len() implies self.rows()[p].id
                        != self.rows()[q].id by {
                        if q < rows0.len() {
                            assert(rows0[p].id != rows0[q].id);
                        } else {
                            assert(self.rows()[q] == w);
                            assert(rows0[p].id != w.id);
                        }
                    }
                }
            },
        }
    }

    /// Upserts every record of `items`, in order, stamping each with the
    /// write time `now`.
    pub fn put_all(&mut self, items: &Vec<Video>, now: i64)
        requires
            old(self).wf(),
        ensures
            final(self).wf(),
            final(self).rows() == upsert_seq(old(self).rows(), views_of(items@), now),
    {
        let ghost rows0 = self.rows();
        let ghost ivs = views_of(items@);
        let n = items.len();
        let mut i: usize = 0;
        while i < n
            invariant
                n == items@.len(),
                i <= n,
                ivs.len() == n,
                forall|k: int| 0 <= k < n ==> ivs[k] == items@[k]@,
                self.wf(),
                self.rows() == upsert_seq(rows0, ivs.take(i as int), now),
            decreases n - i,
        {
            let item = items[i].clone();
            let ghost iv = item@;
            assert(iv == ivs[i as int]);
            self.put(item, now);
            proof {
                let t1 = ivs.take(i + 1);
                assert(t1.drop_last() =~= ivs.take(i as int));
                assert(t1.last() == ivs[i as int]);
                assert(self.rows() == upsert_seq(rows0, t1, now));
            }
            i = i + 1;
        }
        proof {
            assert(ivs.take(n as int) =~= ivs);
        }
    }

    /// Deletes the record at `id` if one is present, reporting whether
    /// something was removed.
    pub fn remove(&mut self, id: &String) -> (r: bool)
        requires
            old(self).wf(),
        ensures
            final(self).wf(),
            r == has_id(old(self).rows(), id@),
            r ==> final(self).rows() == old(self).rows().remove(
                idx_of(old(self).rows(), id@),
            ) && final(self).rows().len() == old(self).rows().len() - 1,
            !r ==> final(self).rows() == old(self).rows(),
    {
        let ghost rows0 = self.rows();
        match self.find(id) {
            Some(i) => {
                proof {
                    lemma_idx_of(rows0, id@, i as int);
                }
                self.videos.remove(i);
                proof {
                    assert(self.rows() =~= rows0.remove(i as int));
                    assert forall|p: int, q: int|
                        0 <= p < q < self.rows().len() implies self.rows()[p].id
                        != self.rows()[q].id by {
                        let p0: int = if p < i { p } else { p + 1 };
                        let q0: int = if q < i { q } else { q + 1 };
                        assert(self.rows()[p] == rows0[p0]);
                        assert(self.rows()[q] == rows0[q0]);
                        assert(rows0[p0].id != rows0[q0].id);
                    }
                }
                true
            },
            None => false,
        }
    }

    /// All current revisions, in store order.
    pub fn list(&self) -> (r: Vec<Video>)
        ensures
            views_of(r@) == self.rows(),
    {
        let n = self.videos.len();
        let mut out: Vec<Video> = Vec::new();
        let mut i: usize = 0;
        while i < n
            invariant
                n == self.videos.len(),
                i <= n,
                out@.len() == i,
                forall|k: int| 0 <= k < i ==> out@[k]@ == self.rows()[k],
            decreases n - i,
        {
            let item = self.videos[i].clone();
            assert(item@ == self.rows()[i as int]);
            out.push(item);
            i = i + 1;
        }
        proof {
            assert forall|k: int| 0 <= k < n implies views_of(out@)[k] == self.rows()[k] by {
                assert(views_of(out@)[k] == out@[k]@);
            }
            assert(views_of(out@) =~= self.rows());
        }
        out
    }

    /// All current revisions whose channel matches `channel` up to
    /// case, in store order.
    pub fn find_by_channel(&self, channel: &String) -> (r: Vec<Video>)
        ensures
            views_of(r@) == spec_by_channel(self.rows(), channel@),
    {
        let lowered_query = lowercase(channel.as_str());
        let ghost key = lower_of(channel@);
        let ghost f = |v: Video| v@;
        let n = self.videos.len();
        let mut out: Vec<Video> = Vec::new();
        let mut i: usize = 0;
        while i < n
            invariant
                n == self.videos.len(),
                i <= n,
                key == lower_of(channel@),
                lowered_query@ == key,
                forall|v: Video| #[trigger] f(v) == v@,
                out@.map_values(f) == spec_by_lowered(self.rows().take(i as int), key),
            decreases n - i,
        {
            let ghost taken = self.rows().take(i as int);
            let ghost out_prev = out@;
            let ghost rowi = self.rows()[i as int];
            let lowered_channel = lowercase(self.videos[i].channel.as_str());
            let hit = lowered_channel.eq(&lowered_query);
            proof {
                assert(rowi == self.videos@[i as int]@);
                assert(rowi.channel == self.videos@[i as int].channel@);
                assert(hit == (lower_of(rowi.channel) == key));
            }
            if hit {
                let item = self.videos[i].clone();
                let ghost itemg = item;
                assert(itemg@ == rowi);
                out.push(item);
                proof {
                    out_prev.lemma_push_map_commute(f, itemg);
                    assert(out@ == out_prev.push(itemg));
                    assert(f(itemg) == itemg@);
                    assert(out@.map_values(f) == out_prev.map_values(f).push(rowi));
                }
            }
            proof {
                reveal_with_fuel(Seq::filter, 2);
                let taken1 = self.rows().take(i + 1);
                assert(taken1.drop_last() =~= taken);
                assert(taken1.last() == rowi);
                assert(taken1.len() == i + 1);
                if hit {
                    assert(spec_by_lowered(taken1, key) == spec_by_lowered(taken, key).push(rowi));
                } else {
                    assert(spec_by_lowered(taken1, key) == spec_by_lowered(taken, key));
                }
                assert(out@.map_values(f) == spec_by_lowered(taken1, key));
            }
            i = i + 1;
        }
        proof {
            assert(self.rows().take(n as int) =~= self.rows());
            assert(views_of(out@) =~= out@.map_values(f));
        }
        out
    }
}

/// The rows after upserting `items` one by one, left to right, each
/// stamped with the write time `now`.
pub open spec fn upsert_seq(rows: Seq<VideoView>, items: Seq<VideoView>, now: i64) -> Seq<
    VideoView,
>
    decreases items.len(),
{
    if items.len() == 0 {
        rows
    } else {
        spec_put(upsert_seq(rows, items.drop_last(), now), stamped(items.last(), now))
    }
}

/// A sequence of upserts keeps ids unique and grows the store by at
/// most one row per item.
pub proof fn lemma_upsert_seq_bounds(rows: Seq<VideoView>, items: Seq<VideoView>, now: i64)
    requires
        ids_unique(rows),
    ensures
        ids_unique(upsert_seq(rows, items, now)),
        rows.len() <= upsert_seq(rows, items, now).len() <= rows.len() + items.len(),
    decreases items.len(),
{
    if items.len() != 0 {
        lemma_upsert_seq_bounds(rows, items.drop_last(), now);
        lemma_put_preserves_unique(
            upsert_seq(rows, items.drop_last(), now),
            stamped(items.last(), now),
        );
    }
}

/// An id occurs among `items`.
pub open spec fn seq_has_id(items: Seq<VideoView>, id: Seq<char>) -> bool {
    exists|k: int| 0 <= k < items.len() && items[k].id == id
}

/// How many of `items` carry an id not present in `rows` (exact when
/// the items' ids are pairwise distinct).
pub open spec fn fresh_count(rows: Seq<VideoView>, items: Seq<VideoView>) -> int
    decreases items.len(),
{
    if items.len() == 0 {
        0
    } else {
        fresh_count(rows, items.drop_last()) + if has_id(rows, items.last().id) {
            0int
        } else {
            1int
        }
    }
}

/// An upsert leaves exactly the old ids plus the upserted one, and
/// grows the store by one row iff the id was new.
pub proof fn lemma_put_ids(rows: Seq<VideoView>, v: VideoView)
    requires
        ids_unique(rows),
    ensures
        forall|x: Seq<char>|
            #[trigger] has_id(spec_put(rows, v), x) <==> has_id(rows, x) || x == v.id,
        spec_put(rows, v).len() == rows.len() + if has_id(rows, v.id) {
            0int
        } else {
            1int
        },
{
    let out = spec_put(rows, v);
    if has_id(rows, v.id) {
        let i = idx_of(rows, v.id);
        assert(0 <= i < rows.len() && rows[i].id == v.id);
        assert forall|x: Seq<char>|
            #[trigger] has_id(out, x) <==> has_id(rows, x) || x == v.id by {
            if has_id(out, x) {
                let j = choose|j: int| 0 <= j < out.len() && out[j].id == x;
                if j == i {
                    assert(x == v.id);
                } else {
                    assert(rows[j].id == x);
                }
            }
            if has_id(rows, x) {
                let j = choose|j: int| 0 <= j < rows.len() && rows[j].id == x;
                if j == i {
                    assert(out[i].id == v.id && x == v.id);
                } else {
                    assert(out[j].id == x);
                }
                assert(has_id(out, x));
            }
            if x == v.id {
                assert(out[i].id == x);
                assert(has_id(out, x));
            }
        }
    } else {
        let i = rows.len() as int;
        assert forall|x: Seq<char>|
            #[trigger] has_id(out, x) <==> has_id(rows, x) || x == v.id by {
            if has_id(out, x) {
                let j = choose|j: int| 0 <= j < out.len() && out[j].id == x;
                if j == i {
                    assert(x == v.id);
                } else {
                    assert(rows[j].id == x);
                }
            }
            if has_id(rows, x) {
                let j = choose|j: int| 0 <= j < rows.len() && rows[j].id == x;
                assert(out[j].id == x);
                assert(has_id(out, x));
            }
            if x == v.id {
                assert(out[i].id == x);
                assert(has_id(out, x));
            }
        }
    }
}

/// The ids after a sequence of upserts are exactly the old ids plus the
/// items' ids.
pub proof fn lemma_upsert_seq_ids(rows: Seq<VideoView>, items: Seq<VideoView>, now: i64)
    requires
        ids_unique(rows),
    ensures
        forall|x: Seq<char>|
            #[trigger] has_id(upsert_seq(rows, items, now), x) <==> has_id(rows, x) || seq_has_id(
                items,
                x,
            ),
    decreases items.len(),
{
    if items.len() != 0 {
        let pre = items.drop_last();
        let mid = upsert_seq(rows, pre, now);
        let w = stamped(items.last(), now);
        lemma_upsert_seq_ids(rows, pre, now);
        lemma_upsert_seq_bounds(rows, pre, now);
        lemma_put_ids(mid, w);
        assert forall|x: Seq<char>|
            #[trigger] has_id(upsert_seq(rows, items, now), x) <==> has_id(rows, x) || seq_has_id(
                items,
                x,
            ) by {
            assert(has_id(upsert_seq(rows, items, now), x) <==> has_id(mid, x) || x == w.id);
            if seq_has_id(pre, x) {
                let k = choose|k: int| 0 <= k < pre.len() && pre[k].id == x;
                assert(items[k].id == x);
                assert(seq_has_id(items, x));
            }
            if seq_has_id(items, x) && x != w.id {
                let k = choose|k: int| 0 <= k < items.len() && items[k].id == x;
                assert(k < pre.len());
                assert(pre[k].id == x);
                assert(seq_has_id(pre, x));
            }
            if x == w.id {
                assert(items[items.len() - 1].id == x);
                assert(seq_has_id(items, x));
            }
        }
    }
}

/// With pairwise distinct item ids, a sequence of upserts grows the
/// store by exactly the number of item ids not already present.
pub proof fn lemma_upsert_seq_exact_len(rows: Seq<VideoView>, items: Seq<VideoView>, now: i64)
    requires
        ids_unique(rows),
        ids_unique(items),
    ensures
        upsert_seq(rows, items, now).len() == rows.len() + fresh_count(rows, items),
    decreases items.len(),
{
    if items.len() != 0 {
        let pre = items.drop_last();
        assert forall|p: int, q: int| 0 <= p < q < pre.len() implies pre[p].id != pre[q].id by {
            assert(items[p].id != items[q].id);
        }
        let mid = upsert_seq(rows, pre, now);
        let w = stamped(items.last(), now);
        lemma_upsert_seq_exact_len(rows, pre, now);
        lemma_upsert_seq_bounds(rows, pre, now);
        lemma_upsert_seq_ids(rows, pre, now);
        lemma_put_ids(mid, w);
        if seq_has_id(pre, items.last().id) {
            let k = choose|k: int| 0 <= k < pre.len() && pre[k].id == items.last().id;
            assert(items[k].id == items[items.len() - 1].id);
            assert(false);
        }
        assert(has_id(mid, w.id) == has_id(rows, items.last().id));
    }
}

/// Upserting the same record twice leaves the store exactly as if only
/// the second upsert had happened: one row at the id, carrying the
/// input's fields with `fetched_at` equal to the most recent write time.
pub proof fn lemma_upsert_idempotent(rows: Seq<VideoView>, v: VideoView, t1: i64, t2: i64)
    requires
        ids_unique(rows),
    ensures
        spec_put(spec_put(rows, stamped(v, t1)), stamped(v, t2)) == spec_put(rows, stamped(v, t2)),
{
    let w1 = stamped(v, t1);
    let w2 = stamped(v, t2);
    let mid = spec_put(rows, w1);
    if has_id(rows, v.id) {
        let i = idx_of(rows, v.id);
        assert(0 <= i < rows.len() && rows[i].id == v.id);
        assert(mid == rows.update(i, w1));
        assert(mid[i].id == v.id);
        lemma_put_preserves_unique(rows, w1);
        lemma_idx_of(mid, v.id, i);
        assert(spec_put(mid, w2) == mid.update(i, w2));
        assert(mid.update(i, w2) =~= rows.update(i, w2));
    } else {
        let i = rows.len() as int;
        assert(mid == rows.push(w1));
        assert(mid[i].id == v.id);
        lemma_put_preserves_unique(rows, w1);
        lemma_idx_of(mid, v.id, i);
        assert(spec_put(mid, w2) == mid.update(i, w2));
        assert(mid.update(i, w2) =~= rows.push(w2));
    }
}

/// An upsert keeps ids unique.
pub proof fn lemma_put_preserves_unique(rows: Seq<VideoView>, v: VideoView)
    requires
        ids_unique(rows),
    ensures
        ids_unique(spec_put(rows, v)),
        has_id(spec_put(rows, v), v.id),
{
    let out = spec_put(rows, v);
    if has_id(rows, v.id) {
        let i = idx_of(rows, v.id);
        assert(0 <= i < rows.len() && rows[i].id == v.id);
        assert(out[i] == v);
        assert forall|p: int, q: int| 0 <= p < q < out.len() implies out[p].id != out[q].id by {
            assert(rows[p].id != rows[q].id);
        }
    } else {
        assert(out[rows.len() as int] == v);
        assert forall|p: int, q: int| 0 <= p < q < out.len() implies out[p].id != out[q].id by {
            if q < rows.len() {
                assert(rows[p].id != rows[q].id);
            } else {
                assert(out[q] == v);
                assert(rows[p].id != v.id);
            }
        }
    }
}

/// Channel lookup is insensitive to the case of the query: two queries
/// with the same lowercase form select exactly the same rows, so the
/// result depends only on the lowercased channel.
pub proof fn lemma_channel_lookup_case_insensitive(
    rows: Seq<VideoView>,
    q1: Seq<char>,
    q2: Seq<char>,
)
    requires
        lower_of(q1) == lower_of(q2),
    ensures
        spec_by_channel(rows, q1) == spec_by_channel(rows, q2),
{
}

} // verus!
