//! What holds of every retrieval: the served order is an order, it holds each
//! qualifying record once, and the pages of a result laid end to end are the
//! result.

use crate::models::{FlightQuery, FlightView};
use crate::query::{
    accepts, filter_of, insert_ordered, no_filter, ordered, page_number_of, page_of, page_size_of, pages_needed,
    precedes, qualifying, FilterView, SortSpec, MAX_PAGE_SIZE,
};
use crate::routes::{requested_page, requested_sort};
use crate::store::FlightStore;
use crate::text::{lemma_lex_asymmetric, lemma_lex_between, lemma_lex_total, lex_lt};
use vstd::prelude::*;
use vstd::seq_lib::{to_multiset_build, to_multiset_insert};

verus! {

/// The filter decides alone which records qualify: every qualifying record is a
/// record of `rows` that the filter accepts, and every record of `rows` that the
/// filter accepts qualifies.
pub proof fn lemma_qualifying_exact(rows: Seq<FlightView>, filter: FilterView, r: FlightView)
    ensures
        qualifying(rows, filter).contains(r) <==> rows.contains(r) && accepts(filter, r.listing),
    decreases rows.len(),
{
    if rows.len() > 0 {
        let rest = rows.drop_last();
        let q = qualifying(rest, filter);
        lemma_qualifying_exact(rest, filter, r);
        if rows.contains(r) {
            let i = choose|i: int| 0 <= i < rows.len() && rows[i] == r;
            if i < rows.len() - 1 {
                assert(rest[i] == r);
            }
        }
        if rest.contains(r) {
            let i = choose|i: int| 0 <= i < rest.len() && rest[i] == r;
            assert(rows[i] == r);
        }
        assert(rows[rows.len() - 1] == rows.last());
        if accepts(filter, rows.last().listing) {
            assert(q.push(rows.last())[q.len() as int] == rows.last());
            if q.contains(r) {
                let i = choose|i: int| 0 <= i < q.len() && q[i] == r;
                assert(q.push(rows.last())[i] == r);
            }
            if q.push(rows.last()).contains(r) {
                let i = choose|i: int| 0 <= i < q.len() + 1 && q.push(rows.last())[i] == r;
                if i < q.len() {
                    assert(q[i] == r);
                }
            }
        }
    }
}

/// Without a predicate every record qualifies, so the count is the number of
/// rows.
pub proof fn lemma_no_filter_keeps_all(rows: Seq<FlightView>)
    ensures
        qualifying(rows, no_filter()) == rows,
    decreases rows.len(),
{
    if rows.len() > 0 {
        lemma_no_filter_keeps_all(rows.drop_last());
        assert(rows.drop_last().push(rows.last()) =~= rows);
    } else {
        assert(qualifying(rows, no_filter()) =~= rows);
    }
}

/// Whether no record of `s` comes strictly before one that stands earlier.
pub open spec fn in_order(s: Seq<FlightView>, sort: SortSpec) -> bool {
    forall|i: int, j: int| 0 <= i < j < s.len() ==> !precedes(sort, s[j], s[i])
}

/// Of two records at most one comes strictly before the other, and none before
/// itself.
pub proof fn lemma_precedes_asymmetric(sort: SortSpec, a: FlightView, b: FlightView)
    ensures
        !(precedes(sort, a, b) && precedes(sort, b, a)),
{
    lemma_lex_asymmetric(a.uuid, b.uuid);
    lemma_lex_asymmetric(a.listing.date, b.listing.date);
}

/// If `a` does not come after `b` and `b` does not come after `c`, then `a` does
/// not come after `c`.
pub proof fn lemma_not_after_transitive(sort: SortSpec, a: FlightView, b: FlightView, c: FlightView)
    requires
        !precedes(sort, b, a),
        !precedes(sort, c, b),
    ensures
        !precedes(sort, c, a),
{
    if precedes(sort, c, a) {
        if lex_lt(c.uuid, a.uuid) {
            lemma_lex_between(c.uuid, b.uuid, a.uuid);
        }
        if lex_lt(c.listing.date, a.listing.date) {
            lemma_lex_between(c.listing.date, b.listing.date, a.listing.date);
        }
        lemma_lex_total(a.listing.date, b.listing.date);
        lemma_lex_total(b.listing.date, c.listing.date);
        lemma_lex_asymmetric(a.listing.date, b.listing.date);
        lemma_lex_asymmetric(b.listing.date, c.listing.date);
    }
}

/// The place that `insert_ordered` gives a record: every record behind it comes
/// strictly after it, and the record before it does not.
pub proof fn lemma_insert_place(s: Seq<FlightView>, x: FlightView, sort: SortSpec) -> (p: int)
    ensures
        0 <= p <= s.len(),
        insert_ordered(s, x, sort) == s.insert(p, x),
        forall|j: int| p <= j < s.len() ==> precedes(sort, x, #[trigger] s[j]),
        p > 0 ==> !precedes(sort, x, s[p - 1]),
    decreases s.len(),
{
    if s.len() > 0 && precedes(sort, x, s.last()) {
        let p = lemma_insert_place(s.drop_last(), x, sort);
        assert(s.drop_last().insert(p, x).push(s.last()) =~= s.insert(p, x));
        assert forall|j: int| p <= j < s.len() implies precedes(sort, x, #[trigger] s[j]) by {
            if j < s.len() - 1 {
                assert(s[j] == s.drop_last()[j]);
            }
        }
        if p > 0 {
            assert(s[p - 1] == s.drop_last()[p - 1]);
        }
        p
    } else {
        assert(s.push(x) =~= s.insert(s.len() as int, x));
        s.len() as int
    }
}

/// Putting a record in its place keeps a sequence in order.
pub proof fn lemma_insert_keeps_order(s: Seq<FlightView>, x: FlightView, sort: SortSpec)
    requires
        in_order(s, sort),
    ensures
        in_order(insert_ordered(s, x, sort), sort),
{
    let p = lemma_insert_place(s, x, sort);
    let t = s.insert(p, x);
    assert forall|i: int, j: int| 0 <= i < j < t.len() implies !precedes(sort, t[j], t[i]) by {
        if j == p {
            assert(t[i] == s[i]);
            if i < p - 1 {
                lemma_not_after_transitive(sort, s[i], s[p - 1], x);
            }
        } else if i == p {
            assert(t[j] == s[j - 1]);
            lemma_precedes_asymmetric(sort, x, s[j - 1]);
        } else {
            let i0 = if i < p { i } else { i - 1 };
            let j0 = if j < p { j } else { j - 1 };
            assert(t[i] == s[i0] && t[j] == s[j0]);
        }
    }
}

/// The served order is an order: in `ordered(s, sort)` no record comes strictly
/// before one that stands earlier, whatever the order of `s`.
pub proof fn lemma_ordered_in_order(s: Seq<FlightView>, sort: SortSpec)
    ensures
        in_order(ordered(s, sort), sort),
    decreases s.len(),
{
    if s.len() > 0 {
        lemma_ordered_in_order(s.drop_last(), sort);
        lemma_insert_keeps_order(ordered(s.drop_last(), sort), s.last(), sort);
    }
}

/// Ordering neither drops nor repeats a record: `ordered(s, sort)` holds the
/// records of `s`, each as often as `s` does.
pub proof fn lemma_ordered_same_records(s: Seq<FlightView>, sort: SortSpec)
    ensures
        ordered(s, sort).to_multiset() == s.to_multiset(),
    decreases s.len(),
{
    if s.len() > 0 {
        let rest = ordered(s.drop_last(), sort);
        lemma_ordered_same_records(s.drop_last(), sort);
        let p = lemma_insert_place(rest, s.last(), sort);
        to_multiset_insert(rest, p, s.last());
        to_multiset_build(s.drop_last(), s.last());
        assert(s.drop_last().push(s.last()) =~= s);
    } else {
        assert(ordered(s, sort) =~= s);
    }
}

/// Whether the row numbers of `s` rise from each record to the next.
pub open spec fn ids_ascend(s: Seq<FlightView>) -> bool {
    forall|i: int, j: int| 0 <= i < j < s.len() ==> s[i].id < s[j].id
}

/// Whether each record of `s` comes before every later one: strictly by sort key
/// and identifier, or, where the two agree on both, by its lower row number.
pub open spec fn in_total_order(s: Seq<FlightView>, sort: SortSpec) -> bool {
    forall|i: int, j: int|
        0 <= i < j < s.len() ==> precedes(sort, s[i], s[j]) || (!precedes(sort, s[j], s[i])
            && s[i].id < s[j].id)
}

/// Every record of `ordered(s, sort)` is a record of `s`.
pub proof fn lemma_ordered_members(s: Seq<FlightView>, sort: SortSpec)
    ensures
        forall|i: int| 0 <= i < ordered(s, sort).len() ==> s.contains(#[trigger] ordered(s, sort)[i]),
    decreases s.len(),
{
    if s.len() > 0 {
        let rest = ordered(s.drop_last(), sort);
        lemma_ordered_members(s.drop_last(), sort);
        let p = lemma_insert_place(rest, s.last(), sort);
        let t = rest.insert(p, s.last());
        assert forall|i: int| 0 <= i < t.len() implies s.contains(#[trigger] t[i]) by {
            if i == p {
                assert(s[s.len() - 1] == t[i]);
            } else {
                let i0 = if i < p { i } else { i - 1 };
                assert(t[i] == rest[i0]);
                let k = choose|k: int| 0 <= k < s.drop_last().len() && s.drop_last()[k] == rest[i0];
                assert(s[k] == t[i]);
            }
        }
    }
}

/// Every qualifying record is a record of `rows`, and the qualifying records keep
/// rising row numbers.
pub proof fn lemma_qualifying_ids_ascend(rows: Seq<FlightView>, filter: FilterView)
    requires
        ids_ascend(rows),
    ensures
        ids_ascend(qualifying(rows, filter)),
    decreases rows.len(),
{
    if rows.len() > 0 {
        let rest = rows.drop_last();
        let q = qualifying(rest, filter);
        assert(ids_ascend(rest)) by {
            assert forall|i: int, j: int| 0 <= i < j < rest.len() implies rest[i].id < rest[j].id by {
                assert(rest[i] == rows[i] && rest[j] == rows[j]);
            }
        }
        lemma_qualifying_ids_ascend(rest, filter);
        if accepts(filter, rows.last().listing) {
            let t = q.push(rows.last());
            assert forall|i: int, j: int| 0 <= i < j < t.len() implies t[i].id < t[j].id by {
                if j == q.len() {
                    lemma_qualifying_exact(rest, filter, q[i]);
                    assert(q.contains(q[i]));
                    let k = choose|k: int| 0 <= k < rest.len() && rest[k] == q[i];
                    assert(rows[k] == q[i]);
                    assert(rows[rows.len() - 1] == t[j]);
                } else {
                    assert(t[i] == q[i] && t[j] == q[j]);
                }
            }
        }
    }
}

/// Ordering records whose row numbers rise puts them in a total order: ties on
/// sort key and identifier are broken by the row number.
pub proof fn lemma_ordered_in_total_order(s: Seq<FlightView>, sort: SortSpec)
    requires
        ids_ascend(s),
    ensures
        in_total_order(ordered(s, sort), sort),
    decreases s.len(),
{
    if s.len() > 0 {
        let x = s.last();
        let rest = ordered(s.drop_last(), sort);
        assert(ids_ascend(s.drop_last())) by {
            assert forall|i: int, j: int| 0 <= i < j < s.len() - 1 implies s.drop_last()[i].id
                < s.drop_last()[j].id by {
                assert(s.drop_last()[i] == s[i] && s.drop_last()[j] == s[j]);
            }
        }
        lemma_ordered_in_total_order(s.drop_last(), sort);
        lemma_ordered_in_order(s.drop_last(), sort);
        lemma_ordered_members(s.drop_last(), sort);
        let p = lemma_insert_place(rest, x, sort);
        let t = rest.insert(p, x);
        assert forall|i: int, j: int| 0 <= i < j < t.len() implies precedes(sort, t[i], t[j]) || (
        !precedes(sort, t[j], t[i]) && t[i].id < t[j].id) by {
            if j == p {
                assert(t[i] == rest[i]);
                if i < p - 1 {
                    lemma_not_after_transitive(sort, rest[i], rest[p - 1], x);
                }
                let k = choose|k: int| 0 <= k < s.drop_last().len() && s.drop_last()[k] == rest[i];
                assert(s[k] == rest[i]);
                assert(s[s.len() - 1] == x);
            } else if i == p {
                assert(t[j] == rest[j - 1]);
            } else {
                let i0 = if i < p { i } else { i - 1 };
                let j0 = if j < p { j } else { j - 1 };
                assert(t[i] == rest[i0] && t[j] == rest[j0]);
            }
        }
    }
}

/// What is served is in a total order whenever the rows are numbered in rising
/// order, as those of every table are: by sort key, then by identifier, then by
/// row number. So the same request on the same table always gives the same pages.
pub proof fn lemma_result_in_total_order(rows: Seq<FlightView>, filter: FilterView, sort: SortSpec)
    requires
        ids_ascend(rows),
    ensures
        in_total_order(ordered(qualifying(rows, filter), sort), sort),
{
    lemma_qualifying_ids_ascend(rows, filter);
    lemma_ordered_in_total_order(qualifying(rows, filter), sort);
}

/// The rows of a well-formed table are numbered in rising order.
pub proof fn lemma_table_ids_ascend(store: FlightStore)
    requires
        store.wf(),
    ensures
        ids_ascend(store@),
{
}

/// The first `count` pages of `size` records of `s`, laid end to end.
pub open spec fn pages_joined(s: Seq<FlightView>, size: nat, count: nat) -> Seq<FlightView>
    decreases count,
{
    if count == 0 {
        Seq::empty()
    } else {
        pages_joined(s, size, (count - 1) as nat) + page_of(s, size, ((count - 1) * size) as nat)
    }
}

/// The first `count` pages laid end to end are the first `count * size` records,
/// or all of them where there are fewer.
pub proof fn lemma_pages_are_a_prefix(s: Seq<FlightView>, size: nat, count: nat)
    requires
        size >= 1,
    ensures
        pages_joined(s, size, count) == s.take(
            if count * size <= s.len() {
                (count * size) as int
            } else {
                s.len() as int
            },
        ),
    decreases count,
{
    if count == 0 {
        assert(s.take(0) =~= Seq::<FlightView>::empty());
    } else {
        let before = (count - 1) as nat;
        lemma_pages_are_a_prefix(s, size, before);
        assert(before * size + size == count * size) by (nonlinear_arith)
            requires
                before + 1 == count,
        ;
        assert(before * size >= 0) by (nonlinear_arith);
        let from = if before * size <= s.len() {
            (before * size) as int
        } else {
            s.len() as int
        };
        let to = if count * size <= s.len() {
            (count * size) as int
        } else {
            s.len() as int
        };
        assert(pages_joined(s, size, before) == s.take(from));
        assert((count - 1) * size == before * size);
        assert(page_of(s, size, (before * size) as nat) == s.subrange(from, to));
        assert(pages_joined(s, size, count) == s.take(from) + s.subrange(from, to));
        assert(s.take(from) + s.subrange(from, to) =~= s.take(to));
    }
}

/// Pagination loses and repeats nothing: for every page size of at least 1, the
/// pages of a result laid end to end in order, as many as the result fills, are
/// the result itself.
pub proof fn lemma_pages_give_the_whole(s: Seq<FlightView>, size: nat)
    requires
        size >= 1,
    ensures
        pages_joined(s, size, pages_needed(s.len(), size)) == s,
{
    let count = pages_needed(s.len(), size);
    let n = s.len();
    lemma_pages_are_a_prefix(s, size, count);
    assert(((n + size - 1) / (size as int)) * size >= n) by (nonlinear_arith)
        requires
            size >= 1,
            n >= 0,
    ;
    assert((n + size - 1) / (size as int) >= 0) by (nonlinear_arith)
        requires
            size >= 1,
            n >= 0,
    ;
    assert(s.take(n as int) =~= s);
}

/// A page beyond the last one is empty.
pub proof fn lemma_page_beyond_is_empty(s: Seq<FlightView>, size: nat, offset: nat)
    requires
        offset >= s.len(),
    ensures
        page_of(s, size, offset).len() == 0,
{
}

/// Whether two requests ask for the same records in the same order and for the
/// same page number. Their page sizes may differ.
pub open spec fn same_but_limit(a: &FlightQuery, b: &FlightQuery) -> bool {
    &&& a.page == b.page
    &&& filter_of(a) == filter_of(b)
    &&& requested_sort(a) == requested_sort(b)
}

/// A page size above the cap is served as the cap: two requests that differ only
/// in sizes of `MAX_PAGE_SIZE` or more get the same page, of the same number,
/// with the same page size.
pub proof fn lemma_size_above_cap_is_the_cap(
    rows: Seq<FlightView>,
    a: &FlightQuery,
    b: &FlightQuery,
)
    requires
        same_but_limit(a, b),
        a.limit.is_some() && a.limit.unwrap() >= MAX_PAGE_SIZE,
        b.limit.is_some() && b.limit.unwrap() >= MAX_PAGE_SIZE,
    ensures
        page_size_of(a.limit) == MAX_PAGE_SIZE,
        page_size_of(a.limit) == page_size_of(b.limit),
        page_number_of(a.page) == page_number_of(b.page),
        requested_page(rows, a) == requested_page(rows, b),
{
}

} // verus!
