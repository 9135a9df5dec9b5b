//! The flight table: an ordered sequence of records that is read through a filter
//! and replaced as a whole.

use crate::models::{Flight, FlightView, NewFlight, NewFlightView};
use crate::query::{
    full_result, lemma_insert_position, lemma_ordered_len, no_filter, page_of, precedes,
    qualifying, FilterSpec, FilterView, SortSpec,
};
use vstd::prelude::*;

verus! {

/// Why the table refused an operation.
#[derive(Clone, Copy, Debug, PartialEq, Eq, Structural)]
pub enum StoreError {
    /// The table cannot be reached.
    StorageUnavailable,
    /// A record breaks a rule of the table.
    InvalidRecord,
}

/// Highest number of rows: row numbers are `i32` and start at 1.
pub const MAX_ROWS: usize = 0x7FFF_FFFF;

/// The mathematical values of a sequence of rows.
pub open spec fn row_views(rows: Seq<Flight>) -> Seq<FlightView> {
    Seq::new(rows.len(), |i: int| rows[i]@)
}

/// The mathematical values of a batch of records.
pub open spec fn batch_views(batch: Seq<NewFlight>) -> Seq<NewFlightView> {
    Seq::new(batch.len(), |i: int| batch[i]@)
}

/// Whether the table takes the batch: every record is valid, and there are no
/// more than `MAX_ROWS` of them.
pub open spec fn storable(batch: Seq<NewFlightView>) -> bool {
    &&& batch.len() <= MAX_ROWS
    &&& forall|i: int| 0 <= i < batch.len() ==> (#[trigger] batch[i]).listing.is_valid()
}

/// The rows that a batch becomes: the records in their order, numbered from 1.
pub open spec fn stored(batch: Seq<NewFlightView>) -> Seq<FlightView> {
    Seq::new(
        batch.len(),
        |i: int| FlightView { id: i + 1, uuid: batch[i].uuid, listing: batch[i].listing },
    )
}

/// The rows that the indices in `order` pick from `all`.
pub open spec fn picked(order: Seq<usize>, all: Seq<FlightView>) -> Seq<FlightView> {
    Seq::new(order.len(), |i: int| all[order[i] as int])
}

/// The flight table.
pub struct FlightStore {
    rows: Vec<Flight>,
}

impl View for FlightStore {
    type V = Seq<FlightView>;

    closed spec fn view(&self) -> Seq<FlightView> {
        row_views(self.rows@)
    }
}

impl FlightStore {
    /// The rows are numbered 1, 2, 3 and so on in their order, there are no more
    /// than `MAX_ROWS` of them, and each is valid.
    pub open spec fn wf(&self) -> bool {
        &&& self@.len() <= MAX_ROWS
        &&& forall|i: int|
            0 <= i < self@.len() ==> (#[trigger] self@[i]).id == i + 1 && self@[i].listing.is_valid()
    }

    #[verifier::type_invariant]
    spec fn inv(&self) -> bool {
        self.wf()
    }

    /// A table without rows.
    pub fn new() -> (store: FlightStore)
        ensures
            store@ == Seq::<FlightView>::empty(),
            store.wf(),
    {
        let store = FlightStore { rows: Vec::new() };
        assert(store@ =~= Seq::<FlightView>::empty());
        store
    }

    /// Number of rows. Every table is well formed.
    pub fn len(&self) -> (n: usize)
        ensures
            n == self@.len(),
            self.wf(),
    {
        proof {
            use_type_invariant(self);
        }
        self.rows.len()
    }

    /// Copies of all rows, in the order in which they are stored.
    pub fn rows(&self) -> (all: Vec<Flight>)
        ensures
            row_views(all@) == self@,
    {
        let total: usize = self.rows.len();
        let mut all: Vec<Flight> = Vec::new();
        let mut i: usize = 0;
        while i < total
            invariant
                i <= total,
                total == self.rows.len(),
                all.len() == i,
                forall|j: int| 0 <= j < i ==> all@[j]@ == self.rows@[j]@,
            decreases total - i,
        {
            all.push(self.rows[i].duplicate());
            i += 1;
        }
        assert(row_views(all@) =~= self@);
        all
    }

    /// Counts the rows that the filter accepts.
    pub fn count(&self, filter: &FilterSpec) -> (n: usize)
        ensures
            n == qualifying(self@, filter@).len(),
            n <= MAX_ROWS,
    {
        proof {
            use_type_invariant(self);
        }
        let total: usize = self.rows.len();
        let ghost all = self@;
        let mut n: usize = 0;
        let mut k: usize = 0;
        assert(all.take(0) =~= Seq::<FlightView>::empty());
        while k < total
            invariant
                k <= total,
                total == self.rows.len(),
                all == self@,
                n <= k,
                n == qualifying(all.take(k as int), filter@).len(),
            decreases total - k,
        {
            proof {
                assert(all.take(k + 1).drop_last() =~= all.take(k as int));
            }
            if filter.accepts(&self.rows[k]) {
                n += 1;
            }
            k += 1;
        }
        assert(all.take(total as int) =~= all);
        n
    }

    /// Reads the rows that the filter accepts, in the order of `sort`, skipping
    /// `offset` of them and handing out up to `limit`. An offset beyond the last
    /// row gives an empty page.
    pub fn load(&self, filter: &FilterSpec, sort: SortSpec, limit: usize, offset: usize) -> (page:
        Vec<Flight>)
        ensures
            row_views(page@) == page_of(
                full_result(self@, filter@, sort),
                limit as nat,
                offset as nat,
            ),
    {
        let total: usize = self.rows.len();
        let ghost all = self@;
        let mut order: Vec<usize> = Vec::new();
        let mut k: usize = 0;
        assert(all.take(0) =~= Seq::<FlightView>::empty());
        assert(picked(order@, all) =~= Seq::<FlightView>::empty());
        while k < total
            invariant
                k <= total,
                total == self.rows.len(),
                all == self@,
                forall|i: int| 0 <= i < order.len() ==> order[i] < k,
                picked(order@, all) == full_result(all.take(k as int), filter@, sort),
            decreases total - k,
        {
            proof {
                assert(all.take(k + 1).drop_last() =~= all.take(k as int));
            }
            if filter.accepts(&self.rows[k]) {
                let mut p: usize = order.len();
                let mut going: bool = true;
                while going && p > 0
                    invariant
                        p <= order.len(),
                        k < total,
                        total == self.rows.len(),
                        all == self@,
                        forall|i: int| 0 <= i < order.len() ==> order[i] < k,
                        forall|j: int|
                            p <= j < order.len() ==> precedes(
                                sort,
                                all[k as int],
                                #[trigger] picked(order@, all)[j],
                            ),
                        !going ==> p > 0 && !precedes(
                            sort,
                            all[k as int],
                            picked(order@, all)[p - 1],
                        ),
                    decreases p + if going { 1int } else { 0int },
                {
                    let at: usize = order[p - 1];
                    if sort.comes_before(&self.rows[k], &self.rows[at]) {
                        p -= 1;
                    } else {
                        going = false;
                    }
                }
                let ghost before = order@;
                proof {
                    let q = qualifying(all.take(k as int), filter@);
                    lemma_insert_position(picked(before, all), all[k as int], sort, p as int);
                    assert(all.take(k + 1).last() == all[k as int]);
                    assert(q.push(all[k as int]).drop_last() =~= q);
                }
                order.insert(p, k);
                proof {
                    assert(picked(order@, all) =~= picked(before, all).insert(
                        p as int,
                        all[k as int],
                    ));
                }
            }
            k += 1;
        }
        assert(all.take(total as int) =~= all);
        let found: usize = order.len();
        let from: usize = if offset <= found {
            offset
        } else {
            found
        };
        let to: usize = if limit <= found - from {
            from + limit
        } else {
            found
        };
        let mut page: Vec<Flight> = Vec::new();
        let mut i: usize = from;
        while i < to
            invariant
                from <= i <= to,
                to <= found,
                found == order.len(),
                total == self.rows.len(),
                all == self@,
                forall|j: int| 0 <= j < order.len() ==> order[j] < total,
                row_views(page@) =~= picked(order@, all).subrange(from as int, i as int),
            decreases to - i,
        {
            let at: usize = order[i];
            let ghost sofar = row_views(page@);
            let row: Flight = self.rows[at].duplicate();
            page.push(row);
            proof {
                assert(row_views(page@) =~= sofar.push(all[at as int]));
                assert(picked(order@, all).subrange(from as int, i + 1) =~= picked(
                    order@,
                    all,
                ).subrange(from as int, i as int).push(all[at as int]));
            }
            i += 1;
        }
        page
    }

    /// Replaces every row by the records of `batch`, in their order, numbered from
    /// 1. A batch that is not `storable` is refused as a whole, and the table stays
    /// as it was. Returns the number of rows written.
    pub fn replace_all(&mut self, batch: &Vec<NewFlight>) -> (written: Result<usize, StoreError>)
        ensures
            match written {
                Ok(n) => {
                    &&& storable(batch_views(batch@))
                    &&& n == batch.len()
                    &&& final(self)@ == stored(batch_views(batch@))
                    &&& final(self).wf()
                },
                Err(e) => {
                    &&& !storable(batch_views(batch@))
                    &&& e == StoreError::InvalidRecord
                    &&& final(self)@ == old(self)@
                },
            },
    {
        let n: usize = batch.len();
        if n > MAX_ROWS {
            return Err(StoreError::InvalidRecord);
        }
        let mut rows: Vec<Flight> = Vec::new();
        let mut i: usize = 0;
        while i < n
            invariant
                i <= n,
                n == batch.len(),
                n <= MAX_ROWS,
                rows.len() == i,
                forall|j: int| 0 <= j < i ==> (#[trigger] batch_views(batch@)[j]).listing.is_valid(),
                row_views(rows@) =~= stored(batch_views(batch@)).take(i as int),
            decreases n - i,
        {
            if !batch[i].is_valid() {
                assert(!batch_views(batch@)[i as int].listing.is_valid());
                return Err(StoreError::InvalidRecord);
            }
            let id: i32 = (i + 1) as i32;
            rows.push(batch[i].stored_as(id));
            i += 1;
        }
        self.rows = rows;
        assert(self@ =~= stored(batch_views(batch@)));
        Ok(n)
    }
}

/// Read and count agree: a read from the start with a limit that no result
/// exceeds hands out as many rows as the count with the same filter says,
/// whatever the order asked for.
pub proof fn lemma_count_matches_full_read(
    rows: Seq<FlightView>,
    filter: FilterView,
    sort: SortSpec,
    limit: nat,
)
    requires
        limit >= rows.len(),
    ensures
        page_of(full_result(rows, filter, sort), limit, 0) == full_result(rows, filter, sort),
        full_result(rows, filter, sort).len() == qualifying(rows, filter).len(),
{
    lemma_ordered_len(qualifying(rows, filter), sort);
    lemma_qualifying_len(rows, filter);
    let full = full_result(rows, filter, sort);
    assert(full.subrange(0, full.len() as int) =~= full);
}

/// No more rows qualify than there are.
pub proof fn lemma_qualifying_len(rows: Seq<FlightView>, filter: FilterView)
    ensures
        qualifying(rows, filter).len() <= rows.len(),
    decreases rows.len(),
{
    if rows.len() > 0 {
        lemma_qualifying_len(rows.drop_last(), filter);
    }
}

/// After a replacement by the empty batch no row is left, so every count is 0.
pub proof fn lemma_empty_batch_empties(filter: FilterView)
    ensures
        storable(Seq::<NewFlightView>::empty()),
        stored(Seq::<NewFlightView>::empty()) == Seq::<FlightView>::empty(),
        qualifying(stored(Seq::<NewFlightView>::empty()), filter).len() == 0,
        qualifying(stored(Seq::<NewFlightView>::empty()), no_filter()).len() == 0,
{
    assert(stored(Seq::<NewFlightView>::empty()) =~= Seq::<FlightView>::empty());
}

} // verus!
