//! A table of rows keyed by block height, kept in ascending order of height.

use vstd::prelude::*;

verus! {

/// A row that is stored under a block height.
pub trait Row: Copy {
    /// The height the row is stored under.
    spec fn height(&self) -> u64;

    /// The height the row is stored under.
    fn row_height(&self) -> (h: u64)
        ensures
            h == self.height(),
    ;
}

/// Whether the heights of `s` strictly ascend.
pub open spec fn ascending<R: Row>(s: Seq<R>) -> bool {
    forall|i: int, j: int| 0 <= i < j < s.len() ==> (#[trigger] s[i]).height() < (#[trigger] s[j]).height()
}

/// Whether some row of `s` is stored under `h`.
pub open spec fn has_height<R: Row>(s: Seq<R>, h: u64) -> bool {
    exists|i: int| 0 <= i < s.len() && (#[trigger] s[i]).height() == h
}

/// The rows of `s` by their height.
pub open spec fn rows_map<R: Row>(s: Seq<R>) -> Map<u64, R> {
    Map::new(
        |h: u64| has_height(s, h),
        |h: u64| s[choose|i: int| 0 <= i < s.len() && (#[trigger] s[i]).height() == h],
    )
}

/// The part of `m` that lies below the height `tail`.
pub open spec fn below<R>(m: Map<u64, R>, tail: u64) -> Map<u64, R> {
    Map::new(|h: u64| m.dom().contains(h) && h < tail, |h: u64| m[h])
}

/// Whether `h` is the greatest height of `m`.
pub open spec fn is_top<R>(m: Map<u64, R>, h: u64) -> bool {
    &&& m.dom().contains(h)
    &&& forall|k: u64| m.dom().contains(k) ==> k <= h
}

/// Whether each row of `m` is held under its own height.
pub open spec fn keyed<R: Row>(m: Map<u64, R>) -> bool {
    forall|h: u64| m.dom().contains(h) ==> (#[trigger] m[h]).height() == h
}

/// The row of the greatest height of `m`, if `m` has a row.
pub open spec fn top<R>(m: Map<u64, R>) -> Option<R> {
    if exists|h: u64| is_top(m, h) {
        Some(m[choose|h: u64| is_top(m, h)])
    } else {
        None
    }
}

/// In an ascending sequence each row is found under its own height.
pub proof fn lemma_rows_map_at<R: Row>(s: Seq<R>, i: int)
    requires
        ascending(s),
        0 <= i < s.len(),
    ensures
        rows_map(s).dom().contains(s[i].height()),
        rows_map(s)[s[i].height()] == s[i],
{
    let h = s[i].height();
    assert(has_height(s, h));
    let j = choose|j: int| 0 <= j < s.len() && (#[trigger] s[j]).height() == h;
    if j < i {
        assert(s[j].height() < s[i].height());
    } else if i < j {
        assert(s[i].height() < s[j].height());
    }
}

/// Putting a row of a new height at its place in an ascending sequence adds
/// it to the map and leaves the rest.
pub proof fn lemma_rows_map_insert<R: Row>(s: Seq<R>, pos: int, r: R)
    requires
        ascending(s),
        0 <= pos <= s.len(),
        forall|i: int| 0 <= i < pos ==> (#[trigger] s[i]).height() < r.height(),
        forall|i: int| pos <= i < s.len() ==> (#[trigger] s[i]).height() > r.height(),
    ensures
        ascending(s.insert(pos, r)),
        rows_map(s.insert(pos, r)) == rows_map(s).insert(r.height(), r),
{
    let t = s.insert(pos, r);
    assert(ascending(t)) by {
        assert forall|i: int, j: int| 0 <= i < j < t.len() implies (#[trigger] t[i]).height() < (
        #[trigger] t[j]).height() by {
            let a = if i < pos { i } else { i - 1 };
            let b = if j < pos { j } else { j - 1 };
            if i != pos {
                assert(t[i] == s[a]);
            }
            if j != pos {
                assert(t[j] == s[b]);
            }
        }
    }
    let m1 = rows_map(t);
    let m2 = rows_map(s).insert(r.height(), r);
    assert forall|h: u64| m1.dom().contains(h) <==> m2.dom().contains(h) by {
        if m1.dom().contains(h) {
            let i = choose|i: int| 0 <= i < t.len() && (#[trigger] t[i]).height() == h;
            if i < pos {
                assert(t[i] == s[i]);
                assert(has_height(s, h));
            } else if i > pos {
                assert(t[i] == s[i - 1]);
                assert(has_height(s, h));
            }
        }
        if m2.dom().contains(h) {
            if h == r.height() {
                assert(t[pos] == r);
                assert(has_height(t, h));
            } else {
                let i = choose|i: int| 0 <= i < s.len() && (#[trigger] s[i]).height() == h;
                let k = if i < pos { i } else { i + 1 };
                assert(t[k] == s[i]);
                assert(has_height(t, h));
            }
        }
    }
    assert forall|h: u64| m1.dom().contains(h) implies m1[h] == m2[h] by {
        let i = choose|i: int| 0 <= i < t.len() && (#[trigger] t[i]).height() == h;
        lemma_rows_map_at(t, i);
        if i < pos {
            assert(t[i] == s[i]);
            lemma_rows_map_at(s, i);
        } else if i > pos {
            assert(t[i] == s[i - 1]);
            lemma_rows_map_at(s, i - 1);
        }
    }
    assert(m1 =~= m2);
}

/// Cutting an ascending sequence where the heights reach `tail` keeps the
/// part of the map below `tail`.
pub proof fn lemma_rows_map_truncate<R: Row>(s: Seq<R>, pos: int, tail: u64)
    requires
        ascending(s),
        0 <= pos <= s.len(),
        forall|i: int| 0 <= i < pos ==> (#[trigger] s[i]).height() < tail,
        forall|i: int| pos <= i < s.len() ==> (#[trigger] s[i]).height() >= tail,
    ensures
        ascending(s.subrange(0, pos)),
        rows_map(s.subrange(0, pos)) == below(rows_map(s), tail),
{
    let t = s.subrange(0, pos);
    assert(ascending(t)) by {
        assert forall|i: int, j: int| 0 <= i < j < t.len() implies (#[trigger] t[i]).height() < (
        #[trigger] t[j]).height() by {
            assert(t[i] == s[i]);
            assert(t[j] == s[j]);
        }
    }
    let m1 = rows_map(t);
    let m2 = below(rows_map(s), tail);
    assert forall|h: u64| m1.dom().contains(h) <==> m2.dom().contains(h) by {
        if m1.dom().contains(h) {
            let i = choose|i: int| 0 <= i < t.len() && (#[trigger] t[i]).height() == h;
            assert(t[i] == s[i]);
            assert(has_height(s, h));
        }
        if m2.dom().contains(h) {
            let i = choose|i: int| 0 <= i < s.len() && (#[trigger] s[i]).height() == h;
            assert(i < pos);
            assert(t[i] == s[i]);
            assert(has_height(t, h));
        }
    }
    assert forall|h: u64| m1.dom().contains(h) implies m1[h] == m2[h] by {
        let i = choose|i: int| 0 <= i < t.len() && (#[trigger] t[i]).height() == h;
        lemma_rows_map_at(t, i);
        assert(t[i] == s[i]);
        lemma_rows_map_at(s, i);
    }
    assert(m1 =~= m2);
}

/// Whether the rows of `rows` have heights that differ from one another and
/// from every height of `m`.
pub open spec fn fresh<R: Row>(m: Map<u64, R>, rows: Seq<R>) -> bool {
    &&& forall|i: int| 0 <= i < rows.len() ==> !m.dom().contains((#[trigger] rows[i]).height())
    &&& forall|i: int, j: int|
        0 <= i < j < rows.len() ==> (#[trigger] rows[i]).height() != (#[trigger] rows[j]).height()
}

/// `m` and the rows of `rows`, each under its height.
pub open spec fn with_rows<R: Row>(m: Map<u64, R>, rows: Seq<R>) -> Map<u64, R> {
    Map::new(
        |h: u64| m.dom().contains(h) || has_height(rows, h),
        |h: u64|
            if has_height(rows, h) {
                rows[choose|i: int| 0 <= i < rows.len() && (#[trigger] rows[i]).height() == h]
            } else {
                m[h]
            },
    )
}

/// Taking a row of an ascending sequence out takes it out of the map.
pub proof fn lemma_rows_map_remove<R: Row>(s: Seq<R>, pos: int)
    requires
        ascending(s),
        0 <= pos < s.len(),
    ensures
        ascending(s.remove(pos)),
        rows_map(s.remove(pos)) == rows_map(s).remove(s[pos].height()),
{
    let t = s.remove(pos);
    let gone = s[pos].height();
    assert forall|i: int| 0 <= i < t.len() implies #[trigger] t[i] == s[if i < pos {
        i
    } else {
        i + 1
    }] by {}
    assert(ascending(t)) by {
        assert forall|i: int, j: int| 0 <= i < j < t.len() implies (#[trigger] t[i]).height() < (
        #[trigger] t[j]).height() by {
            let a = if i < pos { i } else { i + 1 };
            let b = if j < pos { j } else { j + 1 };
            assert(t[i] == s[a]);
            assert(t[j] == s[b]);
        }
    }
    let m1 = rows_map(t);
    let m2 = rows_map(s).remove(gone);
    assert forall|h: u64| m1.dom().contains(h) <==> m2.dom().contains(h) by {
        if m1.dom().contains(h) {
            let i = choose|i: int| 0 <= i < t.len() && (#[trigger] t[i]).height() == h;
            let a = if i < pos { i } else { i + 1 };
            assert(t[i] == s[a]);
            assert(has_height(s, h));
            if a < pos {
                assert(s[a].height() < s[pos].height());
            } else {
                assert(s[pos].height() < s[a].height());
            }
        }
        if m2.dom().contains(h) {
            let i = choose|i: int| 0 <= i < s.len() && (#[trigger] s[i]).height() == h;
            let k = if i < pos { i } else { i - 1 };
            assert(t[k] == s[i]);
            assert(has_height(t, h));
        }
    }
    assert forall|h: u64| m1.dom().contains(h) implies m1[h] == m2[h] by {
        let i = choose|i: int| 0 <= i < t.len() && (#[trigger] t[i]).height() == h;
        let a = if i < pos { i } else { i + 1 };
        lemma_rows_map_at(t, i);
        assert(t[i] == s[a]);
        lemma_rows_map_at(s, a);
    }
    assert(m1 =~= m2);
}

/// Among rows of distinct heights each is found under its own height.
pub proof fn lemma_with_rows_at<R: Row>(m: Map<u64, R>, rows: Seq<R>, i: int)
    requires
        fresh(m, rows),
        0 <= i < rows.len(),
    ensures
        with_rows(m, rows).dom().contains(rows[i].height()),
        with_rows(m, rows)[rows[i].height()] == rows[i],
{
    let h = rows[i].height();
    assert(has_height(rows, h));
    let j = choose|j: int| 0 <= j < rows.len() && (#[trigger] rows[j]).height() == h;
    if j < i {
        assert(rows[j].height() != rows[i].height());
    } else if i < j {
        assert(rows[i].height() != rows[j].height());
    }
}

/// Adding no rows leaves the map as it is.
pub proof fn lemma_with_rows_none<R: Row>(m: Map<u64, R>, rows: Seq<R>)
    requires
        rows.len() == 0,
    ensures
        with_rows(m, rows) == m,
        fresh(m, rows),
{
    assert(with_rows(m, rows) =~= m);
}

/// The rows up to and with the `i`-th are fresh exactly if those before it
/// are and its height is new; adding them is adding the `i`-th to the rest.
pub proof fn lemma_with_rows_step<R: Row>(m: Map<u64, R>, rows: Seq<R>, i: int)
    requires
        0 <= i < rows.len(),
        fresh(m, rows.take(i)),
    ensures
        fresh(m, rows.take(i + 1)) <==> !with_rows(m, rows.take(i)).dom().contains(
            rows[i].height(),
        ),
        fresh(m, rows.take(i + 1)) ==> with_rows(m, rows.take(i + 1)) == with_rows(
            m,
            rows.take(i),
        ).insert(rows[i].height(), rows[i]),
        !fresh(m, rows.take(i + 1)) ==> !fresh(m, rows),
{
    let a = rows.take(i);
    let b = rows.take(i + 1);
    let h = rows[i].height();
    assert(b[i] == rows[i]);
    assert forall|k: int| 0 <= k < i implies #[trigger] a[k] == rows[k] && b[k] == rows[k] by {}
    if with_rows(m, a).dom().contains(h) {
        if has_height(a, h) {
            let k = choose|k: int| 0 <= k < a.len() && (#[trigger] a[k]).height() == h;
            assert(b[k] == rows[k]);
            assert(b[k].height() == b[i].height());
            assert(!fresh(m, b));
            assert(rows[k].height() == rows[i].height());
            assert(!fresh(m, rows));
        } else {
            assert(m.dom().contains(b[i].height()));
            assert(!fresh(m, b));
            assert(!fresh(m, rows));
        }
    } else {
        assert(!has_height(a, h));
        assert(fresh(m, b)) by {
            assert forall|k: int| 0 <= k < b.len() implies !m.dom().contains(
                (#[trigger] b[k]).height(),
            ) by {
                if k < i {
                    assert(b[k] == a[k]);
                }
            }
            assert forall|k: int, j: int| 0 <= k < j < b.len() implies (#[trigger] b[k]).height()
                != (#[trigger] b[j]).height() by {
                assert(b[k] == a[k]);
                if j < i {
                    assert(b[j] == a[j]);
                }
            }
        }
        let m1 = with_rows(m, b);
        let m2 = with_rows(m, a).insert(h, rows[i]);
        assert forall|k: u64| m1.dom().contains(k) <==> m2.dom().contains(k) by {
            if has_height(b, k) {
                let j = choose|j: int| 0 <= j < b.len() && (#[trigger] b[j]).height() == k;
                if j < i {
                    assert(a[j] == b[j]);
                    assert(has_height(a, k));
                }
            }
            if has_height(a, k) {
                let j = choose|j: int| 0 <= j < a.len() && (#[trigger] a[j]).height() == k;
                assert(b[j] == a[j]);
                assert(has_height(b, k));
            }
            if k == h {
                assert(has_height(b, k));
            }
        }
        assert forall|k: u64| m1.dom().contains(k) implies m1[k] == m2[k] by {
            if has_height(b, k) {
                let j = choose|j: int| 0 <= j < b.len() && (#[trigger] b[j]).height() == k;
                lemma_with_rows_at(m, b, j);
                if j < i {
                    assert(a[j] == b[j]);
                    lemma_with_rows_at(m, a, j);
                }
            } else {
                if has_height(a, k) {
                    let j = choose|j: int| 0 <= j < a.len() && (#[trigger] a[j]).height() == k;
                    assert(b[j] == a[j]);
                    assert(has_height(b, k));
                }
            }
        }
        assert(m1 =~= m2);
    }
}


/// Rows by block height, at most one for each height.
pub struct HeightTable<R: Row> {
    rows: Vec<R>,
}

impl<R: Row> HeightTable<R> {
    /// Whether the rows stand in ascending order of height.
    pub closed spec fn wf(&self) -> bool {
        ascending(self.rows@)
    }

    /// The rows by their height.
    pub closed spec fn view(&self) -> Map<u64, R> {
        rows_map(self.rows@)
    }

    /// Each row of a table is held under its own height.
    pub proof fn lemma_keyed(&self)
        requires
            self.wf(),
        ensures
            keyed(self@),
    {
        assert forall|h: u64| self@.dom().contains(h) implies (#[trigger] self@[h]).height()
            == h by {
            let i = choose|i: int| 0 <= i < self.rows@.len() && (#[trigger] self.rows@[i]).height()
                == h;
            lemma_rows_map_at(self.rows@, i);
        }
    }

    /// A table without rows.
    pub fn new() -> (t: Self)
        ensures
            t.wf(),
            t@ == Map::<u64, R>::empty(),
    {
        let t = HeightTable { rows: Vec::new() };
        assert(t@ =~= Map::<u64, R>::empty());
        t
    }

    /// The index of the first row whose height is at least `h`.
    fn lower_bound(&self, h: u64) -> (pos: usize)
        requires
            self.wf(),
        ensures
            pos <= self.rows@.len(),
            forall|i: int| 0 <= i < pos ==> (#[trigger] self.rows@[i]).height() < h,
            forall|i: int| pos <= i < self.rows@.len() ==> (#[trigger] self.rows@[i]).height() >= h,
    {
        let mut lo: usize = 0;
        let mut hi: usize = self.rows.len();
        while lo < hi
            invariant
                lo <= hi <= self.rows@.len(),
                ascending(self.rows@),
                forall|i: int| 0 <= i < lo ==> (#[trigger] self.rows@[i]).height() < h,
                forall|i: int| hi <= i < self.rows@.len() ==> (#[trigger] self.rows@[i]).height() >= h,
            decreases hi - lo,
        {
            let mid: usize = lo + (hi - lo) / 2;
            if self.rows[mid].row_height() < h {
                assert forall|i: int| 0 <= i < mid + 1 implies (#[trigger] self.rows@[i]).height()
                    < h by {
                    if i < mid {
                        assert(self.rows@[i].height() < self.rows@[mid as int].height());
                    }
                }
                lo = mid + 1;
            } else {
                assert forall|i: int| mid <= i < self.rows@.len() implies (
                #[trigger] self.rows@[i]).height() >= h by {
                    if mid < i {
                        assert(self.rows@[mid as int].height() < self.rows@[i].height());
                    }
                }
                hi = mid;
            }
        }
        lo
    }

    /// The row stored under `h`.
    pub fn get(&self, h: u64) -> (r: Option<R>)
        requires
            self.wf(),
        ensures
            r == (if self@.dom().contains(h) {
                Some(self@[h])
            } else {
                None
            }),
            r matches Some(row) ==> row.height() == h,
    {
        let pos = self.lower_bound(h);
        if pos < self.rows.len() && self.rows[pos].row_height() == h {
            proof {
                lemma_rows_map_at(self.rows@, pos as int);
            }
            Some(self.rows[pos])
        } else {
            assert(!has_height(self.rows@, h));
            None
        }
    }

    /// Whether a row is stored under `h`.
    pub fn contains(&self, h: u64) -> (b: bool)
        requires
            self.wf(),
        ensures
            b == self@.dom().contains(h),
    {
        self.get(h).is_some()
    }

    /// The row of the greatest height.
    pub fn latest(&self) -> (r: Option<R>)
        requires
            self.wf(),
        ensures
            r == top(self@),
            r is None <==> self@ == Map::<u64, R>::empty(),
            r matches Some(row) ==> is_top(self@, row.height()) && self@[row.height()] == row,
    {
        let n = self.rows.len();
        if n == 0 {
            assert(self@ =~= Map::<u64, R>::empty());
            assert(forall|h: u64| !is_top(self@, h));
            None
        } else {
            let row = self.rows[n - 1];
            proof {
                lemma_rows_map_at(self.rows@, n - 1);
                assert forall|k: u64| self@.dom().contains(k) implies k <= row.height() by {
                    let i = choose|i: int|
                        0 <= i < self.rows@.len() && (#[trigger] self.rows@[i]).height() == k;
                    if i < n - 1 {
                        assert(self.rows@[i].height() < self.rows@[n - 1].height());
                    }
                }
                assert(is_top(self@, row.height()));
                let h = choose|h: u64| is_top(self@, h);
                assert(h == row.height());
            }
            Some(row)
        }
    }

    /// Stores `row` under its height, unless a row is stored there already.
    ///
    /// Returns whether the row was stored.
    pub fn insert(&mut self, row: R) -> (stored: bool)
        requires
            old(self).wf(),
        ensures
            final(self).wf(),
            stored == !old(self)@.dom().contains(row.height()),
            stored ==> final(self)@ == old(self)@.insert(row.height(), row),
            !stored ==> final(self)@ == old(self)@,
    {
        let h = row.row_height();
        let pos = self.lower_bound(h);
        if pos < self.rows.len() && self.rows[pos].row_height() == h {
            proof {
                lemma_rows_map_at(self.rows@, pos as int);
            }
            false
        } else {
            proof {
                assert(!has_height(self.rows@, h));
                assert forall|i: int| pos <= i < self.rows@.len() implies (
                #[trigger] self.rows@[i]).height() > h by {
                    if i > pos {
                        assert(self.rows@[pos as int].height() < self.rows@[i].height());
                    }
                }
                lemma_rows_map_insert(self.rows@, pos as int, row);
            }
            self.rows.insert(pos, row);
            true
        }
    }

    /// Removes every row whose height is `tail` or more.
    pub fn remove_from(&mut self, tail: u64)
        requires
            old(self).wf(),
        ensures
            final(self).wf(),
            final(self)@ == below(old(self)@, tail),
    {
        let pos = self.lower_bound(tail);
        proof {
            lemma_rows_map_truncate(self.rows@, pos as int, tail);
        }
        self.rows.truncate(pos);
    }
    /// Removes the row stored under `h`, if there is one.
    pub fn remove(&mut self, h: u64)
        requires
            old(self).wf(),
        ensures
            final(self).wf(),
            final(self)@ == old(self)@.remove(h),
    {
        let pos = self.lower_bound(h);
        if pos < self.rows.len() && self.rows[pos].row_height() == h {
            proof {
                lemma_rows_map_remove(self.rows@, pos as int);
            }
            self.rows.remove(pos);
        } else {
            assert(!has_height(self.rows@, h));
            assert(self@ =~= self@.remove(h));
        }
    }

    /// Stores all of `rows`, or none of them: none where two of them share a
    /// height or one has a height that the table holds already.
    ///
    /// Returns whether the rows were stored.
    pub fn insert_all(&mut self, rows: &Vec<R>) -> (stored: bool)
        requires
            old(self).wf(),
        ensures
            final(self).wf(),
            stored == fresh(old(self)@, rows@),
            stored ==> final(self)@ == with_rows(old(self)@, rows@),
            !stored ==> final(self)@ == old(self)@,
    {
        let ghost before = self@;
        let mut i: usize = 0;
        proof {
            lemma_with_rows_none(before, rows@.take(0));
        }
        while i < rows.len()
            invariant
                i <= rows.len(),
                self.wf(),
                before == old(self)@,
                fresh(before, rows@.take(i as int)),
                self@ == with_rows(before, rows@.take(i as int)),
            decreases rows.len() - i,
        {
            proof {
                lemma_with_rows_step(before, rows@, i as int);
            }
            if !self.insert(rows[i]) {
                let mut j: usize = i;
                while j > 0
                    invariant
                        j <= i < rows.len(),
                        self.wf(),
                        !fresh(before, rows@),
                        fresh(before, rows@.take(j as int)),
                        self@ == with_rows(before, rows@.take(j as int)),
                    decreases j,
                {
                    proof {
                        lemma_with_rows_step(before, rows@.take(j as int), j - 1);
                        assert(rows@.take(j as int).take(j - 1) =~= rows@.take(j - 1));
                        assert(rows@.take(j as int).take(j as int) =~= rows@.take(j as int));
                        assert(rows@.take(j as int)[j - 1] == rows@[j - 1]);
                        let smaller = with_rows(before, rows@.take(j - 1));
                        let key = rows@[j - 1].height();
                        assert(smaller.insert(key, rows@[j - 1]).remove(key) =~= smaller);
                    }
                    self.remove(rows[j - 1].row_height());
                    j = j - 1;
                }
                proof {
                    lemma_with_rows_none(before, rows@.take(0));
                }
                return false;
            }
            i = i + 1;
        }
        assert(rows@.take(i as int) =~= rows@);
        true
    }
}

} // verus!
