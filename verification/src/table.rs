use vstd::prelude::*;

verus! {

/// A record that can live in a [`Table`]: it has a primary key, a
/// last-modification stamp and zero or more text columns whose values must be
/// unique across the table.
pub trait Row: View + Sized {
    /// Primary key of a row.
    spec fn key_of(v: Self::V) -> int;

    /// Last-modification stamp of a row.
    spec fn stamp_of(v: Self::V) -> int;

    /// How many text columns carry a uniqueness constraint.
    spec fn unique_columns() -> nat;

    /// Value of the `k`-th unique column.
    spec fn unique_value_of(v: Self::V, k: int) -> Seq<char>;

    fn id(&self) -> (id: i32)
        ensures
            id == Self::key_of(self@),
    ;

    fn updated_at(&self) -> (t: i64)
        ensures
            t == Self::stamp_of(self@),
    ;

    fn unique_column_count() -> (n: usize)
        ensures
            n == Self::unique_columns(),
    ;

    fn unique_value(&self, k: usize) -> (s: &String)
        ensures
            s@ == Self::unique_value_of(self@, k as int),
    ;

    fn duplicate(&self) -> (r: Self)
        ensures
            r@ == self@,
    ;
}

/// A predicate on rows, decidable at run time.
pub trait RowFilter<R: Row> {
    /// Whether the row satisfies every criterion that is present.
    spec fn matches(&self, row: R::V) -> bool;

    fn accepts(&self, row: &R) -> (b: bool)
        ensures
            b == self.matches(row@),
    ;
}

/// The views of a sequence of rows, in order.
pub open spec fn views<R: View>(rows: Seq<R>) -> Seq<R::V> {
    rows.map_values(|r: R| r@)
}

/// Whether some row carries the key `id`.
pub open spec fn has_key<R: Row>(rows: Seq<R::V>, id: int) -> bool {
    exists|i: int| 0 <= i < rows.len() && R::key_of(#[trigger] rows[i]) == id
}

/// Index of a row with key `id`, if there is one.
pub open spec fn position<R: Row>(rows: Seq<R::V>, id: int) -> Option<int> {
    if has_key::<R>(rows, id) {
        Some(choose|i: int| 0 <= i < rows.len() && R::key_of(#[trigger] rows[i]) == id)
    } else {
        None
    }
}

/// The row with key `id`, if there is one.
pub open spec fn lookup<R: Row>(rows: Seq<R::V>, id: int) -> Option<R::V> {
    match position::<R>(rows, id) {
        Some(i) => Some(rows[i]),
        None => None,
    }
}

/// No two rows share a primary key.
pub open spec fn distinct_keys<R: Row>(rows: Seq<R::V>) -> bool {
    forall|i: int, j: int|
        0 <= i < j < rows.len() ==> R::key_of(#[trigger] rows[i]) != R::key_of(#[trigger] rows[j])
}

/// No two rows share a value in a unique column.
pub open spec fn distinct_columns<R: Row>(rows: Seq<R::V>) -> bool {
    forall|i: int, j: int, k: int|
        0 <= i < j < rows.len() && 0 <= k < R::unique_columns() ==> #[trigger] R::unique_value_of(
            rows[i],
            k,
        ) != #[trigger] R::unique_value_of(rows[j], k)
}

/// Whether `candidate` collides in a unique column with a row other than the
/// one at index `skip`.
pub open spec fn collides<R: Row>(rows: Seq<R::V>, candidate: R::V, skip: int) -> bool {
    exists|i: int, k: int|
        0 <= i < rows.len() && i != skip && 0 <= k < R::unique_columns()
            && #[trigger] R::unique_value_of(rows[i], k) == R::unique_value_of(candidate, k)
}

/// The rows that satisfy `filter`, in table order.
pub open spec fn select<R: Row, F: RowFilter<R>>(rows: Seq<R::V>, filter: F) -> Seq<R::V>
    decreases rows.len(),
{
    if rows.len() == 0 {
        Seq::empty()
    } else if filter.matches(rows.last()) {
        select::<R, F>(rows.drop_last(), filter).push(rows.last())
    } else {
        select::<R, F>(rows.drop_last(), filter)
    }
}

/// `x` placed into a sequence ordered by descending stamp, behind every row
/// that is at least as recent.
pub open spec fn insert_desc<R: Row>(sorted: Seq<R::V>, x: R::V) -> Seq<R::V>
    decreases sorted.len(),
{
    if sorted.len() == 0 {
        seq![x]
    } else if R::stamp_of(sorted.first()) < R::stamp_of(x) {
        seq![x] + sorted
    } else {
        seq![sorted.first()] + insert_desc::<R>(sorted.drop_first(), x)
    }
}

/// The rows ordered by descending stamp; rows with equal stamps keep their
/// relative order.
pub open spec fn sort_desc<R: Row>(rows: Seq<R::V>) -> Seq<R::V>
    decreases rows.len(),
{
    if rows.len() == 0 {
        Seq::empty()
    } else {
        insert_desc::<R>(sort_desc::<R>(rows.drop_last()), rows.last())
    }
}

/// Whether stamps never increase along the sequence.
pub open spec fn ordered_desc<R: Row>(rows: Seq<R::V>) -> bool {
    forall|i: int, j: int|
        0 <= i <= j < rows.len() ==> R::stamp_of(#[trigger] rows[i]) >= R::stamp_of(
            #[trigger] rows[j],
        )
}

/// Number of pages needed for `total` rows at `size` rows per page.
pub open spec fn page_count(total: int, size: int) -> int {
    if total % size == 0 {
        total / size
    } else {
        total / size + 1
    }
}

/// First row index of the 1-indexed page `page`, capped at `total`.
pub open spec fn page_start(total: int, page: int, size: int) -> int {
    if (page - 1) * size < total {
        (page - 1) * size
    } else {
        total
    }
}

/// One past the last row index of the 1-indexed page `page`.
pub open spec fn page_end(total: int, page: int, size: int) -> int {
    if page_start(total, page, size) + size < total {
        page_start(total, page, size) + size
    } else {
        total
    }
}

/// The rows of the 1-indexed page `page`.
pub open spec fn page_slice<A>(rows: Seq<A>, page: int, size: int) -> Seq<A> {
    rows.subrange(
        page_start(rows.len() as int, page, size),
        page_end(rows.len() as int, page, size),
    )
}

/// What a listing returns: the rows that satisfy `filter`, most recently
/// modified first, cut to the 1-indexed page `page` of `size` rows.
pub open spec fn listing<R: Row, F: RowFilter<R>>(
    rows: Seq<R::V>,
    filter: F,
    page: int,
    size: int,
) -> Seq<R::V> {
    page_slice(sort_desc::<R>(select::<R, F>(rows, filter)), page, size)
}

/// The view of an optional row.
pub open spec fn found<R: View>(row: Option<R>) -> Option<R::V> {
    match row {
        Some(r) => Some(r@),
        None => None,
    }
}

/// Every row of a listing is a row of the table that satisfies the filter,
/// and the rows come in descending order of their stamps.
pub proof fn lemma_listing<R: Row, F: RowFilter<R>>(
    rows: Seq<R::V>,
    filter: F,
    page: int,
    size: int,
)
    requires
        page >= 1,
        size >= 1,
    ensures
        listing::<R, F>(rows, filter, page, size).len() <= size,
        forall|i: int|
            0 <= i < listing::<R, F>(rows, filter, page, size).len() ==> filter.matches(
                #[trigger] listing::<R, F>(rows, filter, page, size)[i],
            ) && rows.contains(listing::<R, F>(rows, filter, page, size)[i]),
        ordered_desc::<R>(listing::<R, F>(rows, filter, page, size)),
{
    let chosen = select::<R, F>(rows, filter);
    let sorted = sort_desc::<R>(chosen);
    let out = listing::<R, F>(rows, filter, page, size);
    lemma_select_membership::<R, F>(rows, filter);
    lemma_sort_desc::<R>(chosen);
    lemma_page_slice_len(sorted, page, size);
    let start = page_start(sorted.len() as int, page, size);
    assert forall|i: int| 0 <= i < out.len() implies filter.matches(#[trigger] out[i])
        && rows.contains(out[i]) by {
        lemma_page_slice_within(sorted, page, size, i);
        assert(sorted.contains(sorted[start + i]));
        assert(chosen.contains(out[i]));
    }
    assert forall|i: int, j: int| 0 <= i <= j < out.len() implies R::stamp_of(#[trigger] out[i])
        >= R::stamp_of(#[trigger] out[j]) by {
        lemma_page_slice_within(sorted, page, size, i);
        lemma_page_slice_within(sorted, page, size, j);
        assert(R::stamp_of(sorted[start + i]) >= R::stamp_of(sorted[start + j]));
    }
}

/// What a [`Table`] holds: its rows in insertion order and the last key that
/// its sequence handed out.
pub struct TableView<V> {
    pub rows: Seq<V>,
    pub last_id: int,
}

/// The invariant of a table: keys are positive, were handed out by the
/// sequence, and are pairwise distinct; unique columns hold pairwise distinct
/// values.
pub open spec fn table_wf<R: Row>(t: TableView<R::V>) -> bool {
    &&& 0 <= t.last_id <= i32::MAX
    &&& forall|i: int| 0 <= i < t.rows.len() ==> 1 <= R::key_of(#[trigger] t.rows[i]) <= t.last_id
    &&& distinct_keys::<R>(t.rows)
    &&& distinct_columns::<R>(t.rows)
}

/// Why a row could not be written.
#[derive(Clone, Copy, Debug, PartialEq, Eq)]
pub enum Conflict {
    /// A unique column of the row already holds that value in another row.
    Duplicate,
}

/// An in-memory table with a primary-key sequence and unique text columns.
pub struct Table<R> {
    rows: Vec<R>,
    last_id: i32,
}

impl<R: Row> View for Table<R> {
    type V = TableView<R::V>;

    closed spec fn view(&self) -> TableView<R::V> {
        TableView { rows: views(self.rows@), last_id: self.last_id as int }
    }
}

/// Any row with key `id` sits at the position that `position` names.
pub proof fn lemma_position_unique<R: Row>(rows: Seq<R::V>, id: int, i: int)
    requires
        distinct_keys::<R>(rows),
        0 <= i < rows.len(),
        R::key_of(rows[i]) == id,
    ensures
        position::<R>(rows, id) == Some(i),
        lookup::<R>(rows, id) == Some(rows[i]),
{
    assert(has_key::<R>(rows, id));
    let j = choose|j: int| 0 <= j < rows.len() && R::key_of(#[trigger] rows[j]) == id;
    if j < i {
        assert(R::key_of(rows[j]) != R::key_of(rows[i]));
    } else if i < j {
        assert(R::key_of(rows[i]) != R::key_of(rows[j]));
    }
}

/// The index that `collides` leaves out for an optional position.
pub open spec fn skip_index(skip: Option<usize>) -> int {
    match skip {
        Some(i) => i as int,
        None => -1,
    }
}

/// Where `insert_desc` puts `x`: `p` is the first index whose row is strictly
/// older than `x`.
pub proof fn lemma_insert_desc_at<R: Row>(sorted: Seq<R::V>, x: R::V, p: int)
    requires
        0 <= p <= sorted.len(),
        forall|j: int| 0 <= j < p ==> R::stamp_of(#[trigger] sorted[j]) >= R::stamp_of(x),
        p < sorted.len() ==> R::stamp_of(sorted[p]) < R::stamp_of(x),
    ensures
        insert_desc::<R>(sorted, x) == sorted.insert(p, x),
    decreases sorted.len(),
{
    if sorted.len() == 0 {
        assert(sorted.insert(p, x) =~= seq![x]);
    } else if p == 0 {
        assert(sorted.insert(p, x) =~= seq![x] + sorted);
    } else {
        assert(R::stamp_of(sorted[0]) >= R::stamp_of(x));
        let rest = sorted.drop_first();
        assert forall|j: int| 0 <= j < p - 1 implies R::stamp_of(#[trigger] rest[j])
            >= R::stamp_of(x) by {
            assert(rest[j] == sorted[j + 1]);
        }
        if p - 1 < rest.len() {
            assert(rest[p - 1] == sorted[p]);
        }
        lemma_insert_desc_at::<R>(rest, x, p - 1);
        assert(sorted.insert(p, x) =~= seq![sorted.first()] + rest.insert(p - 1, x));
    }
}

/// Removing one row keeps a table well formed.
pub proof fn lemma_remove_keeps_wf<R: Row>(t: TableView<R::V>, i: int)
    requires
        table_wf::<R>(t),
        0 <= i < t.rows.len(),
    ensures
        table_wf::<R>(TableView { rows: t.rows.remove(i), last_id: t.last_id }),
{
    let rest = t.rows.remove(i);
    assert forall|a: int| 0 <= a < rest.len() implies #[trigger] rest[a] == t.rows[if a < i {
        a
    } else {
        a + 1
    }] by {}
    assert forall|a: int, b: int, k: int|
        0 <= a < b < rest.len() && 0 <= k < R::unique_columns() implies #[trigger]
        R::unique_value_of(rest[a], k) != #[trigger] R::unique_value_of(rest[b], k) by {
        let a0 = if a < i { a } else { a + 1 };
        let b0 = if b < i { b } else { b + 1 };
        assert(R::unique_value_of(t.rows[a0], k) != R::unique_value_of(t.rows[b0], k));
    }
    assert forall|a: int, b: int| 0 <= a < b < rest.len() implies R::key_of(#[trigger] rest[a])
        != R::key_of(#[trigger] rest[b]) by {
        let a0 = if a < i { a } else { a + 1 };
        let b0 = if b < i { b } else { b + 1 };
        assert(R::key_of(t.rows[a0]) != R::key_of(t.rows[b0]));
    }
}

/// Selecting from a well-formed table leaves a well-formed table.
pub proof fn lemma_select_keeps_wf<R: Row, F: RowFilter<R>>(t: TableView<R::V>, filter: F)
    requires
        table_wf::<R>(t),
    ensures
        table_wf::<R>(TableView { rows: select::<R, F>(t.rows, filter), last_id: t.last_id }),
    decreases t.rows.len(),
{
    let rows = t.rows;
    let chosen = select::<R, F>(rows, filter);
    if rows.len() > 0 {
        let head = rows.drop_last();
        let x = rows.last();
        let sub = select::<R, F>(head, filter);
        lemma_select_keeps_wf::<R, F>(TableView { rows: head, last_id: t.last_id }, filter);
        lemma_select_membership::<R, F>(head, filter);
        lemma_select_membership::<R, F>(rows, filter);
        assert forall|i: int| 0 <= i < chosen.len() implies 1 <= R::key_of(#[trigger] chosen[i])
            <= t.last_id by {
            assert(chosen.contains(chosen[i]));
            let j = choose|j: int| 0 <= j < rows.len() && rows[j] == chosen[i];
            assert(1 <= R::key_of(rows[j]) <= t.last_id);
        }
        if filter.matches(x) {
            assert forall|a: int, b: int| 0 <= a < b < chosen.len() implies R::key_of(
                #[trigger] chosen[a],
            ) != R::key_of(#[trigger] chosen[b]) by {
                if b == sub.len() {
                    assert(sub.contains(sub[a]));
                    let j = choose|j: int| 0 <= j < head.len() && head[j] == sub[a];
                    assert(R::key_of(rows[j]) != R::key_of(rows[rows.len() - 1]));
                } else {
                    assert(R::key_of(sub[a]) != R::key_of(sub[b]));
                }
            }
            assert forall|a: int, b: int, k: int|
                0 <= a < b < chosen.len() && 0 <= k < R::unique_columns() implies #[trigger]
                R::unique_value_of(chosen[a], k) != #[trigger] R::unique_value_of(
                chosen[b],
                k,
            ) by {
                if b == sub.len() {
                    assert(sub.contains(sub[a]));
                    let j = choose|j: int| 0 <= j < head.len() && head[j] == sub[a];
                    assert(R::unique_value_of(rows[j], k) != R::unique_value_of(
                        rows[rows.len() - 1],
                        k,
                    ));
                } else {
                    assert(R::unique_value_of(sub[a], k) != R::unique_value_of(sub[b], k));
                }
            }
        }
    }
}

/// How `select` grows when one more row is taken into account.
pub proof fn lemma_select_step<R: Row, F: RowFilter<R>>(rows: Seq<R::V>, filter: F, i: int)
    requires
        0 <= i < rows.len(),
    ensures
        select::<R, F>(rows.take(i + 1), filter) == if filter.matches(rows[i]) {
            select::<R, F>(rows.take(i), filter).push(rows[i])
        } else {
            select::<R, F>(rows.take(i), filter)
        },
{
    assert(rows.take(i + 1).drop_last() =~= rows.take(i));
    assert(rows.take(i + 1).last() == rows[i]);
}

impl<R: Row> Table<R> {
    /// Whether the table's invariant holds.
    pub open spec fn wf(&self) -> bool {
        table_wf::<R>(self@)
    }

    /// An empty table whose sequence has handed out no key yet.
    pub fn new() -> (t: Self)
        ensures
            t@.rows == Seq::<R::V>::empty(),
            t@.last_id == 0,
            t.wf(),
    {
        let t = Table { rows: Vec::new(), last_id: 0 };
        assert(t@.rows =~= Seq::<R::V>::empty());
        t
    }

    /// A table that holds `rows`, in their order, with a sequence that has
    /// handed out keys up to `last_id`; `None` where that would not be a
    /// well-formed table.
    pub fn from_rows(rows: Vec<R>, last_id: i32) -> (r: Option<Self>)
        ensures
            match r {
                Some(t) => t.wf() && t@.rows == views(rows@) && t@.last_id == last_id,
                None => !table_wf::<R>(TableView { rows: views(rows@), last_id: last_id as int }),
            },
    {
        if last_id < 0 {
            return None;
        }
        let ghost all = views(rows@);
        let mut t: Table<R> = Table { rows: Vec::new(), last_id };
        assert(t@.rows =~= all.take(0));
        let mut i: usize = 0;
        while i < rows.len()
            invariant
                i <= rows.len(),
                all == views(rows@),
                t.wf(),
                t@.rows == all.take(i as int),
                t@.last_id == last_id,
            decreases rows.len() - i,
        {
            let row = rows[i].duplicate();
            let id = row.id();
            assert(row@ == all[i as int]);
            if id < 1 || id > last_id {
                return None;
            }
            match t.index_of(id) {
                Some(j) => {
                    assert(R::key_of(all[j as int]) == R::key_of(all[i as int]));
                    return None;
                },
                None => {},
            }
            if t.collision(&row, None) {
                proof {
                    let (j, k) = choose|j: int, k: int|
                        0 <= j < t@.rows.len() && j != -1 && 0 <= k < R::unique_columns()
                            && #[trigger] R::unique_value_of(t@.rows[j], k) == R::unique_value_of(
                            row@,
                            k,
                        );
                    assert(R::unique_value_of(all[j], k) == R::unique_value_of(all[i as int], k));
                }
                return None;
            }
            let ghost before = t@.rows;
            t.rows.push(row);
            proof {
                assert(t@.rows =~= before.push(all[i as int]));
                assert(t@.rows =~= all.take(i + 1));
                assert forall|a: int, b: int| 0 <= a < b < t@.rows.len() implies R::key_of(
                    #[trigger] t@.rows[a],
                ) != R::key_of(#[trigger] t@.rows[b]) by {
                    if b == i {
                        assert(before[a] == t@.rows[a]);
                        if R::key_of(before[a]) == id {
                            assert(has_key::<R>(before, id as int));
                        }
                    } else {
                        assert(R::key_of(before[a]) != R::key_of(before[b]));
                    }
                }
                assert forall|a: int, b: int, k: int|
                    0 <= a < b < t@.rows.len() && 0 <= k < R::unique_columns() implies #[trigger]
                    R::unique_value_of(t@.rows[a], k) != #[trigger] R::unique_value_of(
                    t@.rows[b],
                    k,
                ) by {
                    if b == i {
                        assert(R::unique_value_of(before[a], k) != R::unique_value_of(
                            all[i as int],
                            k,
                        ));
                    } else {
                        assert(R::unique_value_of(before[a], k) != R::unique_value_of(
                            before[b],
                            k,
                        ));
                    }
                }
            }
            i += 1;
        }
        assert(all.take(i as int) =~= all);
        Some(t)
    }

    /// Number of rows.
    pub fn len(&self) -> (n: usize)
        ensures
            n == self@.rows.len(),
    {
        self.rows.len()
    }

    /// The key that the next inserted row gets, unless the sequence is used up.
    pub fn next_id(&self) -> (r: Option<i32>)
        requires
            self.wf(),
        ensures
            r == if self@.last_id < i32::MAX {
                Some((self@.last_id + 1) as i32)
            } else {
                None
            },
    {
        if self.last_id < i32::MAX {
            Some(self.last_id + 1)
        } else {
            None
        }
    }

    /// Index of the row with key `id`.
    pub fn index_of(&self, id: i32) -> (r: Option<usize>)
        requires
            self.wf(),
        ensures
            match r {
                Some(i) => position::<R>(self@.rows, id as int) == Some(i as int) && i
                    < self@.rows.len(),
                None => position::<R>(self@.rows, id as int) is None,
            },
    {
        let mut i: usize = 0;
        while i < self.rows.len()
            invariant
                i <= self.rows.len(),
                self.wf(),
                forall|j: int| 0 <= j < i ==> R::key_of(#[trigger] self@.rows[j]) != id,
            decreases self.rows.len() - i,
        {
            if self.rows[i].id() == id {
                proof {
                    lemma_position_unique::<R>(self@.rows, id as int, i as int);
                }
                return Some(i);
            }
            i += 1;
        }
        None
    }

    /// The row at index `i`.
    pub fn row(&self, i: usize) -> (r: &R)
        requires
            i < self@.rows.len(),
        ensures
            r@ == self@.rows[i as int],
    {
        &self.rows[i]
    }

    /// Whether `candidate` would break a uniqueness constraint against a row
    /// other than the one at `skip`.
    pub fn collision(&self, candidate: &R, skip: Option<usize>) -> (b: bool)
        ensures
            b == collides::<R>(self@.rows, candidate@, skip_index(skip)),
    {
        let cols = R::unique_column_count();
        let mut i: usize = 0;
        while i < self.rows.len()
            invariant
                i <= self.rows.len(),
                cols == R::unique_columns(),
                forall|j: int, k: int|
                    0 <= j < i && j != skip_index(skip) && 0 <= k < cols
                        ==> #[trigger] R::unique_value_of(self@.rows[j], k)
                        != R::unique_value_of(candidate@, k),
            decreases self.rows.len() - i,
        {
            let skipped = match skip {
                Some(s) => s == i,
                None => false,
            };
            if !skipped {
                let mut k: usize = 0;
                while k < cols
                    invariant
                        k <= cols,
                        i < self.rows.len(),
                        cols == R::unique_columns(),
                        i != skip_index(skip),
                        forall|c: int|
                            0 <= c < k ==> #[trigger] R::unique_value_of(self@.rows[i as int], c)
                                != R::unique_value_of(candidate@, c),
                    decreases cols - k,
                {
                    if *self.rows[i].unique_value(k) == *candidate.unique_value(k) {
                        assert(R::unique_value_of(self@.rows[i as int], k as int)
                            == R::unique_value_of(candidate@, k as int));
                        return true;
                    }
                    k += 1;
                }
            }
            i += 1;
        }
        false
    }

    /// Appends `row`, whose key must be the next one of the sequence, unless it
    /// collides with a row in a unique column.
    pub(crate) fn insert(&mut self, row: R) -> (r: Result<(), Conflict>)
        requires
            old(self).wf(),
            old(self)@.last_id < i32::MAX,
            R::key_of(row@) == old(self)@.last_id + 1,
        ensures
            final(self).wf(),
            collides::<R>(old(self)@.rows, row@, -1) ==> r == Err::<(), Conflict>(
                Conflict::Duplicate,
            ) && final(self)@ == old(self)@,
            !collides::<R>(old(self)@.rows, row@, -1) ==> r is Ok && final(self)@ == (TableView {
                rows: old(self)@.rows.push(row@),
                last_id: old(self)@.last_id + 1,
            }),
    {
        if self.collision(&row, None) {
            return Err(Conflict::Duplicate);
        }
        let ghost before = self@.rows;
        let ghost v = row@;
        self.rows.push(row);
        self.last_id = self.last_id + 1;
        proof {
            assert(self@.rows =~= before.push(v));
            assert forall|i: int, j: int, k: int|
                0 <= i < j < self@.rows.len() && 0 <= k < R::unique_columns() implies #[trigger]
                R::unique_value_of(self@.rows[i], k) != #[trigger] R::unique_value_of(
                self@.rows[j],
                k,
            ) by {
                if j == before.len() {
                    assert(R::unique_value_of(before[i], k) != R::unique_value_of(v, k));
                }
            }
        }
        Ok(())
    }

    /// Puts `row` in place of the row at index `i`, which must have the same
    /// key, unless it collides with another row in a unique column.
    pub(crate) fn replace(&mut self, i: usize, row: R) -> (r: Result<(), Conflict>)
        requires
            old(self).wf(),
            i < old(self)@.rows.len(),
            R::key_of(row@) == R::key_of(old(self)@.rows[i as int]),
        ensures
            final(self).wf(),
            collides::<R>(old(self)@.rows, row@, i as int) ==> r == Err::<(), Conflict>(
                Conflict::Duplicate,
            ) && final(self)@ == old(self)@,
            !collides::<R>(old(self)@.rows, row@, i as int) ==> r is Ok && final(self)@
                == (TableView {
                rows: old(self)@.rows.update(i as int, row@),
                last_id: old(self)@.last_id,
            }),
    {
        if self.collision(&row, Some(i)) {
            return Err(Conflict::Duplicate);
        }
        let ghost before = self@.rows;
        let ghost v = row@;
        self.rows.set(i, row);
        proof {
            assert(self@.rows =~= before.update(i as int, v));
            assert forall|a: int, b: int, k: int|
                0 <= a < b < self@.rows.len() && 0 <= k < R::unique_columns() implies #[trigger]
                R::unique_value_of(self@.rows[a], k) != #[trigger] R::unique_value_of(
                self@.rows[b],
                k,
            ) by {
                if a == i {
                    assert(R::unique_value_of(before[b], k) != R::unique_value_of(v, k));
                } else if b == i {
                    assert(R::unique_value_of(before[a], k) != R::unique_value_of(v, k));
                }
            }
        }
        Ok(())
    }

    /// Removes the row with key `id`; the result counts the rows removed.
    pub fn remove(&mut self, id: i32) -> (n: u64)
        requires
            old(self).wf(),
        ensures
            final(self).wf(),
            final(self)@.last_id == old(self)@.last_id,
            match position::<R>(old(self)@.rows, id as int) {
                Some(i) => n == 1 && final(self)@.rows == old(self)@.rows.remove(i),
                None => n == 0 && final(self)@.rows == old(self)@.rows,
            },
    {
        match self.index_of(id) {
            Some(i) => {
                let ghost before = self@.rows;
                self.rows.remove(i);
                proof {
                    assert(self@.rows =~= before.remove(i as int));
                    lemma_remove_keeps_wf::<R>(old(self)@, i as int);
                }
                1
            },
            None => 0,
        }
    }

    /// Keeps the rows that satisfy `keep` and removes the others; the result
    /// counts the rows removed.
    pub fn retain<F: RowFilter<R>>(&mut self, keep: &F) -> (n: u64)
        requires
            old(self).wf(),
        ensures
            final(self).wf(),
            final(self)@.last_id == old(self)@.last_id,
            final(self)@.rows == select::<R, F>(old(self)@.rows, *keep),
            n == old(self)@.rows.len() - final(self)@.rows.len(),
    {
        let mut kept: Vec<R> = Vec::new();
        let mut i: usize = 0;
        assert(views(kept@) =~= Seq::<R::V>::empty());
        while i < self.rows.len()
            invariant
                i <= self.rows.len(),
                *self == *old(self),
                kept@.len() <= i,
                views(kept@) == select::<R, F>(self@.rows.take(i as int), *keep),
            decreases self.rows.len() - i,
        {
            proof {
                lemma_select_step::<R, F>(self@.rows, *keep, i as int);
            }
            if keep.accepts(&self.rows[i]) {
                let ghost before = views(kept@);
                let row = self.rows[i].duplicate();
                let ghost v = row@;
                kept.push(row);
                assert(views(kept@) =~= before.push(v));
            }
            i += 1;
        }
        assert(self@.rows.take(i as int) =~= self@.rows);
        let removed = self.rows.len() - kept.len();
        proof {
            lemma_select_keeps_wf::<R, F>(self@, *keep);
        }
        self.rows = kept;
        removed as u64
    }

    /// Number of rows that satisfy `filter`.
    pub fn count<F: RowFilter<R>>(&self, filter: &F) -> (n: u64)
        ensures
            n == select::<R, F>(self@.rows, *filter).len(),
    {
        let mut n: u64 = 0;
        let mut i: usize = 0;
        while i < self.rows.len()
            invariant
                i <= self.rows.len(),
                n <= i,
                n == select::<R, F>(self@.rows.take(i as int), *filter).len(),
            decreases self.rows.len() - i,
        {
            proof {
                lemma_select_step::<R, F>(self@.rows, *filter, i as int);
            }
            if filter.accepts(&self.rows[i]) {
                n += 1;
            }
            i += 1;
        }
        assert(self@.rows.take(i as int) =~= self@.rows);
        n
    }

    /// Copies of the rows that satisfy `filter`, most recently modified first.
    pub fn select_sorted<F: RowFilter<R>>(&self, filter: &F) -> (out: Vec<R>)
        ensures
            views(out@) == sort_desc::<R>(select::<R, F>(self@.rows, *filter)),
    {
        let mut out: Vec<R> = Vec::new();
        let mut i: usize = 0;
        assert(views(out@) =~= Seq::<R::V>::empty());
        while i < self.rows.len()
            invariant
                i <= self.rows.len(),
                views(out@) == sort_desc::<R>(
                    select::<R, F>(self@.rows.take(i as int), *filter),
                ),
            decreases self.rows.len() - i,
        {
            proof {
                lemma_select_step::<R, F>(self@.rows, *filter, i as int);
            }
            if filter.accepts(&self.rows[i]) {
                let row = self.rows[i].duplicate();
                let stamp = row.updated_at();
                let mut p: usize = 0;
                while p < out.len() && out[p].updated_at() >= stamp
                    invariant
                        p <= out.len(),
                        stamp == R::stamp_of(row@),
                        forall|j: int|
                            0 <= j < p ==> R::stamp_of(#[trigger] views(out@)[j]) >= stamp,
                    decreases out.len() - p,
                {
                    p += 1;
                }
                let ghost before = views(out@);
                let ghost v = row@;
                let ghost chosen = select::<R, F>(self@.rows.take(i as int), *filter);
                proof {
                    lemma_insert_desc_at::<R>(before, v, p as int);
                    assert(v == self@.rows[i as int]);
                    assert(chosen.push(v).drop_last() =~= chosen);
                    assert(sort_desc::<R>(chosen.push(v)) == insert_desc::<R>(before, v));
                }
                out.insert(p, row);
                assert(views(out@) =~= before.insert(p as int, v));
            }
            i += 1;
        }
        assert(self@.rows.take(i as int) =~= self@.rows);
        out
    }

    /// One page of the rows that satisfy `filter`, most recently modified
    /// first, with the number of rows that satisfy it and the number of pages.
    pub fn page<F: RowFilter<R>>(&self, page: u64, page_size: u64, filter: &F) -> (r: (
        Vec<R>,
        u64,
        u64,
    ))
        requires
            page >= 1,
            page_size >= 1,
        ensures
            views(r.0@) == listing::<R, F>(self@.rows, *filter, page as int, page_size as int),
            r.1 == select::<R, F>(self@.rows, *filter).len(),
            r.2 == page_count(r.1 as int, page_size as int),
            r.0@.len() <= page_size,
            forall|i: int| 0 <= i < r.0@.len() ==> filter.matches(#[trigger] r.0@[i]@),
            ordered_desc::<R>(views(r.0@)),
    {
        let sorted = self.select_sorted(filter);
        let ghost all = sorted@;
        let r = paginate(sorted, page, page_size);
        proof {
            let total = all.len() as int;
            assert(views(r.0@) =~= page_slice(views(all), page as int, page_size as int));
            lemma_sort_desc::<R>(select::<R, F>(self@.rows, *filter));
            lemma_listing::<R, F>(self@.rows, *filter, page as int, page_size as int);
            assert forall|i: int| 0 <= i < r.0@.len() implies filter.matches(
                #[trigger] r.0@[i]@,
            ) by {
                assert(views(r.0@)[i] == r.0@[i]@);
            }
        }
        r
    }

    /// A copy of the row with key `id`.
    pub fn get(&self, id: i32) -> (r: Option<R>)
        requires
            self.wf(),
        ensures
            match r {
                Some(row) => lookup::<R>(self@.rows, id as int) == Some(row@),
                None => lookup::<R>(self@.rows, id as int) is None,
            },
    {
        match self.index_of(id) {
            Some(i) => Some(self.rows[i].duplicate()),
            None => None,
        }
    }
}

/// One page of `rows`, with the number of rows and the number of pages.
///
/// A page past the last one is empty; the counts do not depend on `page`.
pub fn paginate<R>(rows: Vec<R>, page: u64, page_size: u64) -> (r: (Vec<R>, u64, u64))
    requires
        page >= 1,
        page_size >= 1,
    ensures
        r.0@ == page_slice(rows@, page as int, page_size as int),
        r.0@.len() <= page_size,
        r.1 == rows@.len(),
        r.2 == page_count(rows@.len() as int, page_size as int),
{
    let mut rows = rows;
    let ghost all = rows@;
    let len: usize = rows.len();
    let total: u64 = len as u64;
    let whole: u64 = total / page_size;
    let pages: u64 = if total % page_size == 0 {
        whole
    } else {
        assert(whole < total) by (nonlinear_arith)
            requires
                whole == total / page_size,
                total % page_size != 0,
                page_size >= 1,
        ;
        whole + 1
    };
    let start: u64 = match (page - 1).checked_mul(page_size) {
        Some(offset) => if offset < total {
            offset
        } else {
            total
        },
        None => total,
    };
    let end: u64 = if total - start > page_size {
        start + page_size
    } else {
        total
    };
    assert(start == page_start(total as int, page as int, page_size as int));
    assert(end == page_end(total as int, page as int, page_size as int));
    rows.truncate(end as usize);
    let items = rows.split_off(start as usize);
    assert(items@ =~= all.subrange(start as int, end as int));
    (items, total, pages)
}

/// The page count is the ceiling of `total / size`: the least number of pages
/// of `size` rows that hold `total` rows.
pub proof fn lemma_page_count_is_ceiling(total: int, size: int)
    requires
        total >= 0,
        size >= 1,
    ensures
        page_count(total, size) >= 0,
        page_count(total, size) * size >= total,
        (page_count(total, size) - 1) * size < total || total == 0,
        total == 0 <==> page_count(total, size) == 0,
{
    let q = total / size;
    let r = total % size;
    assert(total == q * size + r && 0 <= r < size) by (nonlinear_arith)
        requires
            q == total / size,
            r == total % size,
            size >= 1,
    ;
    assert(q >= 0) by (nonlinear_arith)
        requires
            total == q * size + r,
            0 <= r < size,
            total >= 0,
            size >= 1,
    ;
    assert((q + 1) * size == q * size + size) by (nonlinear_arith);
    assert((q - 1) * size == q * size - size) by (nonlinear_arith);
    if total == 0 {
        assert(q == 0) by (nonlinear_arith)
            requires
                0 == q * size + r,
                0 <= r < size,
                q >= 0,
                size >= 1,
        ;
    } else if r == 0 {
        assert(q != 0) by (nonlinear_arith)
            requires
                total == q * size,
                total > 0,
        ;
    }
}

/// A page never holds more than `size` rows, and a page within the page count
/// is full unless it is the last one.
pub proof fn lemma_page_slice_len<A>(rows: Seq<A>, page: int, size: int)
    requires
        page >= 1,
        size >= 1,
    ensures
        page_slice(rows, page, size).len() <= size,
        page > page_count(rows.len() as int, size) ==> page_slice(rows, page, size).len() == 0,
        page < page_count(rows.len() as int, size) ==> page_slice(rows, page, size).len() == size,
{
    let total = rows.len() as int;
    lemma_page_count_is_ceiling(total, size);
    let pages = page_count(total, size);
    assert((page - 1) * size >= 0) by (nonlinear_arith)
        requires
            page >= 1,
            size >= 1,
    ;
    if page > pages {
        assert((page - 1) * size >= pages * size) by (nonlinear_arith)
            requires
                page - 1 >= pages,
                size >= 1,
        ;
    }
    if page < pages {
        assert(page * size <= (pages - 1) * size) by (nonlinear_arith)
            requires
                page <= pages - 1,
                size >= 1,
        ;
        assert(page * size == (page - 1) * size + size) by (nonlinear_arith);
    }
}

/// Every row of a page is a row of the sequence that was paged.
pub proof fn lemma_page_slice_within<A>(rows: Seq<A>, page: int, size: int, i: int)
    requires
        page >= 1,
        size >= 1,
        0 <= i < page_slice(rows, page, size).len(),
    ensures
        0 <= page_start(rows.len() as int, page, size) + i < rows.len(),
        page_slice(rows, page, size)[i] == rows[page_start(rows.len() as int, page, size) + i],
{
    assert((page - 1) * size >= 0) by (nonlinear_arith)
        requires
            page >= 1,
            size >= 1,
    ;
}

/// `select` keeps exactly the rows that satisfy the filter: every selected
/// row satisfies it and comes from the table, and every row of the table that
/// satisfies it is selected.
pub proof fn lemma_select_membership<R: Row, F: RowFilter<R>>(rows: Seq<R::V>, filter: F)
    ensures
        select::<R, F>(rows, filter).len() <= rows.len(),
        forall|v: R::V| #[trigger]
            select::<R, F>(rows, filter).contains(v) <==> rows.contains(v) && filter.matches(v),
    decreases rows.len(),
{
    let chosen = select::<R, F>(rows, filter);
    if rows.len() > 0 {
        let head = rows.drop_last();
        let x = rows.last();
        lemma_select_membership::<R, F>(head, filter);
        let sub = select::<R, F>(head, filter);
        assert forall|v: R::V| #[trigger] chosen.contains(v) <==> rows.contains(v)
            && filter.matches(v) by {
            if chosen.contains(v) {
                let i = choose|i: int| 0 <= i < chosen.len() && chosen[i] == v;
                if i < sub.len() {
                    assert(sub[i] == v);
                    assert(sub.contains(v));
                    let j = choose|j: int| 0 <= j < head.len() && head[j] == v;
                    assert(rows[j] == v);
                } else {
                    assert(v == x);
                    assert(rows[rows.len() - 1] == v);
                }
            }
            if rows.contains(v) && filter.matches(v) {
                let j = choose|j: int| 0 <= j < rows.len() && rows[j] == v;
                if j < head.len() {
                    assert(head[j] == v);
                    assert(head.contains(v));
                    assert(sub.contains(v));
                    let i = choose|i: int| 0 <= i < sub.len() && sub[i] == v;
                    assert(chosen[i] == v);
                } else {
                    assert(chosen[chosen.len() - 1] == v);
                }
            }
        }
    }
}

/// A filter that every row satisfies selects the whole table.
pub proof fn lemma_select_all<R: Row, F: RowFilter<R>>(rows: Seq<R::V>, filter: F)
    requires
        forall|v: R::V| #[trigger] filter.matches(v),
    ensures
        select::<R, F>(rows, filter) == rows,
    decreases rows.len(),
{
    if rows.len() > 0 {
        lemma_select_all::<R, F>(rows.drop_last(), filter);
        assert(rows.drop_last().push(rows.last()) =~= rows);
    } else {
        assert(rows =~= Seq::<R::V>::empty());
    }
}

/// `insert_desc` adds exactly `x`, and keeps a descending sequence descending.
pub proof fn lemma_insert_desc<R: Row>(sorted: Seq<R::V>, x: R::V)
    ensures
        insert_desc::<R>(sorted, x).len() == sorted.len() + 1,
        insert_desc::<R>(sorted, x).to_multiset() == sorted.to_multiset().insert(x),
        ordered_desc::<R>(sorted) ==> ordered_desc::<R>(insert_desc::<R>(sorted, x)),
    decreases sorted.len(),
{
    broadcast use vstd::seq_lib::group_to_multiset_ensures;

    let out = insert_desc::<R>(sorted, x);
    if sorted.len() == 0 {
        assert(sorted =~= Seq::<R::V>::empty());
        assert(out =~= Seq::<R::V>::empty().push(x));
    } else if R::stamp_of(sorted.first()) < R::stamp_of(x) {
        assert(out =~= sorted.insert(0, x));
        vstd::seq_lib::to_multiset_insert(sorted, 0, x);
        if ordered_desc::<R>(sorted) {
            assert forall|i: int, j: int| 0 <= i <= j < out.len() implies R::stamp_of(
                #[trigger] out[i],
            ) >= R::stamp_of(#[trigger] out[j]) by {
                if i > 0 {
                    assert(out[i] == sorted[i - 1] && out[j] == sorted[j - 1]);
                } else if j > 0 {
                    assert(out[j] == sorted[j - 1]);
                    assert(R::stamp_of(sorted[0]) >= R::stamp_of(sorted[j - 1]));
                }
            }
        }
    } else {
        let rest = sorted.drop_first();
        let tail = insert_desc::<R>(rest, x);
        lemma_insert_desc::<R>(rest, x);
        assert(out =~= tail.insert(0, sorted.first()));
        vstd::seq_lib::to_multiset_insert(tail, 0, sorted.first());
        assert(sorted =~= rest.insert(0, sorted.first()));
        vstd::seq_lib::to_multiset_insert(rest, 0, sorted.first());
        assert(out.to_multiset() =~= sorted.to_multiset().insert(x));
        if ordered_desc::<R>(sorted) {
            assert forall|i: int, j: int| 0 <= i <= j < rest.len() implies R::stamp_of(
                #[trigger] rest[i],
            ) >= R::stamp_of(#[trigger] rest[j]) by {
                assert(rest[i] == sorted[i + 1] && rest[j] == sorted[j + 1]);
            }
            assert(ordered_desc::<R>(tail));
            assert forall|j: int| 0 <= j < tail.len() implies R::stamp_of(sorted.first())
                >= R::stamp_of(#[trigger] tail[j]) by {
                assert(tail.to_multiset().count(tail[j]) > 0);
                if tail[j] != x {
                    assert(rest.to_multiset().count(tail[j]) > 0);
                    assert(rest.contains(tail[j]));
                    let k = choose|k: int| 0 <= k < rest.len() && rest[k] == tail[j];
                    assert(sorted[k + 1] == tail[j]);
                    assert(R::stamp_of(sorted[0]) >= R::stamp_of(sorted[k + 1]));
                }
            }
            assert forall|i: int, j: int| 0 <= i <= j < out.len() implies R::stamp_of(
                #[trigger] out[i],
            ) >= R::stamp_of(#[trigger] out[j]) by {
                if i > 0 {
                    assert(out[i] == tail[i - 1] && out[j] == tail[j - 1]);
                } else if j > 0 {
                    assert(out[j] == tail[j - 1]);
                }
            }
        }
    }
}

/// `sort_desc` rearranges its rows, neither adding nor dropping one, so that
/// stamps never increase.
pub proof fn lemma_sort_desc<R: Row>(rows: Seq<R::V>)
    ensures
        sort_desc::<R>(rows).len() == rows.len(),
        sort_desc::<R>(rows).to_multiset() == rows.to_multiset(),
        ordered_desc::<R>(sort_desc::<R>(rows)),
        forall|v: R::V| #[trigger] sort_desc::<R>(rows).contains(v) <==> rows.contains(v),
    decreases rows.len(),
{
    broadcast use vstd::seq_lib::group_to_multiset_ensures;

    if rows.len() > 0 {
        let head = rows.drop_last();
        lemma_sort_desc::<R>(head);
        lemma_insert_desc::<R>(sort_desc::<R>(head), rows.last());
        assert(rows =~= head.push(rows.last()));
        assert(rows.to_multiset() =~= head.to_multiset().insert(rows.last()));
    } else {
        assert(rows =~= Seq::<R::V>::empty());
    }
    let out = sort_desc::<R>(rows);
    assert forall|v: R::V| #[trigger] out.contains(v) <==> rows.contains(v) by {
        assert(out.to_multiset().count(v) == rows.to_multiset().count(v));
    }
}

} // verus!
