//! What a retrieval request asks for: which records qualify, in which order they
//! come, and which slice of them makes a page. The page and the count are both
//! defined over `qualifying`, so they cannot disagree on which records qualify.

use crate::models::{Flight, FlightQuery, FlightView, Listing};
use crate::text::{contains_name, copy_text, lex_lt, list_names, parse_names, text_lt, texts};
use vstd::prelude::*;

verus! {

/// Largest page size that is served, and the size of a page where none is asked for.
pub const MAX_PAGE_SIZE: u64 = 20;

/// Largest binary32 pattern of a number that is zero or more: that of infinity.
pub const RAIN_LIMIT_TOP: u32 = 0x7F80_0000;

/// The binary32 pattern of negative zero.
pub const RAIN_LIMIT_NEGATIVE_ZERO: u32 = 0x8000_0000;

/// The predicates of a request. An absent predicate constrains nothing; so does
/// an empty list of airlines.
pub struct FilterSpec {
    /// Origin that a record must have.
    pub origin: Option<String>,
    /// Destination that a record must have.
    pub destination: Option<String>,
    /// Highest price that a record may have.
    pub max_price: Option<i32>,
    /// Highest rain probability that a record may have, as a binary32 pattern.
    pub max_rain: Option<u32>,
    /// Airlines of which a record must have one.
    pub airlines: Vec<String>,
}

/// The mathematical value of a `FilterSpec`.
pub ghost struct FilterView {
    pub origin: Option<Seq<char>>,
    pub destination: Option<Seq<char>>,
    pub max_price: Option<int>,
    pub max_rain: Option<nat>,
    pub airlines: Seq<Seq<char>>,
}

/// The filter without any predicate.
pub open spec fn no_filter() -> FilterView {
    FilterView {
        origin: None,
        destination: None,
        max_price: None,
        max_rain: None,
        airlines: Seq::empty(),
    }
}

/// Whether a rain probability in [0, 1], given by its pattern, is at most the
/// number whose pattern is `limit`. Patterns of numbers that are zero or more are
/// ordered as the numbers are. Negative zero equals zero. Below a negative limit,
/// or one that is not a number, there is no probability.
pub open spec fn rain_within(rain: nat, limit: nat) -> bool {
    if limit <= RAIN_LIMIT_TOP {
        rain <= limit
    } else if limit == RAIN_LIMIT_NEGATIVE_ZERO {
        rain == 0
    } else {
        false
    }
}

/// Whether a record meets every predicate of the filter.
pub open spec fn accepts(filter: FilterView, record: Listing) -> bool {
    &&& filter.origin.is_some() ==> record.origin == filter.origin.unwrap()
    &&& filter.destination.is_some() ==> record.destination == filter.destination.unwrap()
    &&& filter.max_price.is_some() ==> record.price_inr <= filter.max_price.unwrap()
    &&& filter.max_rain.is_some() ==> rain_within(
        record.rain_probability,
        filter.max_rain.unwrap(),
    )
    &&& filter.airlines.len() > 0 ==> filter.airlines.contains(record.airline)
}

/// The filter that a request's parameters ask for.
pub open spec fn filter_of(query: &FlightQuery) -> FilterView {
    FilterView {
        origin: match query.origin {
            Some(o) => Some(o@),
            None => None,
        },
        destination: match query.destination {
            Some(d) => Some(d@),
            None => None,
        },
        max_price: match query.max_price {
            Some(p) => Some(p as int),
            None => None,
        },
        max_rain: match query.max_rain {
            Some(r) => Some(r as nat),
            None => None,
        },
        airlines: match query.airline {
            Some(a) => list_names(a@),
            None => Seq::empty(),
        },
    }
}

impl View for FilterSpec {
    type V = FilterView;

    open spec fn view(&self) -> FilterView {
        FilterView {
            origin: match self.origin {
                Some(o) => Some(o@),
                None => None,
            },
            destination: match self.destination {
                Some(d) => Some(d@),
                None => None,
            },
            max_price: match self.max_price {
                Some(p) => Some(p as int),
                None => None,
            },
            max_rain: match self.max_rain {
                Some(r) => Some(r as nat),
                None => None,
            },
            airlines: texts(self.airlines@),
        }
    }
}

impl FilterSpec {
    /// The filter that constrains nothing.
    pub fn none() -> (filter: FilterSpec)
        ensures
            filter@ == no_filter(),
    {
        let filter = FilterSpec {
            origin: None,
            destination: None,
            max_price: None,
            max_rain: None,
            airlines: Vec::new(),
        };
        assert(filter@.airlines =~= Seq::empty());
        filter
    }

    /// Reads the predicates of a request. The airlines come as one text, names
    /// separated by commas; each name is trimmed and empty names are dropped.
    pub fn from_query(query: &FlightQuery) -> (filter: FilterSpec)
        ensures
            filter@ == filter_of(query),
    {
        let airlines: Vec<String> = match &query.airline {
            Some(a) => parse_names(a.as_str()),
            None => Vec::new(),
        };
        let filter = FilterSpec {
            origin: copy_text(&query.origin),
            destination: copy_text(&query.destination),
            max_price: query.max_price,
            max_rain: query.max_rain,
            airlines,
        };
        assert(filter@.airlines =~= filter_of(query).airlines);
        filter
    }

    /// Decides whether a record meets every predicate.
    pub fn accepts(&self, record: &Flight) -> (yes: bool)
        ensures
            yes == accepts(self@, record@.listing),
    {
        if let Some(o) = &self.origin {
            if record.origin != *o {
                return false;
            }
        }
        if let Some(d) = &self.destination {
            if record.destination != *d {
                return false;
            }
        }
        if let Some(p) = self.max_price {
            if record.price_inr > p {
                return false;
            }
        }
        if let Some(limit) = self.max_rain {
            let within: bool = if limit <= RAIN_LIMIT_TOP {
                record.rain_probability <= limit
            } else if limit == RAIN_LIMIT_NEGATIVE_ZERO {
                record.rain_probability == 0
            } else {
                false
            };
            if !within {
                return false;
            }
        }
        if self.airlines.len() > 0 {
            if !contains_name(&self.airlines, &record.airline) {
                return false;
            }
        }
        true
    }
}

/// The order in which records are served.
#[derive(Clone, Copy, Debug, PartialEq, Eq, Structural)]
pub enum SortSpec {
    /// By price, lowest first.
    PriceAscending,
    /// By travel date, earliest first.
    DateAscending,
}

/// The order that a request's sort parameter asks for: by date for `date`, by
/// price for anything else and where it is absent.
pub open spec fn sort_of(sort_by: Option<Seq<char>>) -> SortSpec {
    if sort_by == Some("date"@) {
        SortSpec::DateAscending
    } else {
        SortSpec::PriceAscending
    }
}

impl SortSpec {
    /// Reads the sort parameter of a request.
    pub fn from_param(sort_by: &Option<String>) -> (sort: SortSpec)
        ensures
            sort == sort_of(
                match *sort_by {
                    Some(s) => Some(s@),
                    None => None,
                },
            ),
    {
        match sort_by {
            Some(s) => {
                let date: String = "date".to_owned();
                if *s == date {
                    SortSpec::DateAscending
                } else {
                    SortSpec::PriceAscending
                }
            },
            None => SortSpec::PriceAscending,
        }
    }

    /// Decides whether `a` is served strictly before `b` by its sort key and
    /// identifier.
    pub fn comes_before(self, a: &Flight, b: &Flight) -> (yes: bool)
        ensures
            yes == precedes(self, a@, b@),
    {
        match self {
            SortSpec::PriceAscending => {
                a.price_inr < b.price_inr || (a.price_inr == b.price_inr && text_lt(
                    a.uuid.as_str(),
                    b.uuid.as_str(),
                ))
            },
            SortSpec::DateAscending => {
                text_lt(a.date.as_str(), b.date.as_str()) || (a.date == b.date && text_lt(
                    a.uuid.as_str(),
                    b.uuid.as_str(),
                ))
            },
        }
    }
}

/// Whether `a` is served strictly before `b`: by the sort key, and among records
/// with the same key by the identifier, both ascending.
pub open spec fn precedes(sort: SortSpec, a: FlightView, b: FlightView) -> bool {
    match sort {
        SortSpec::PriceAscending => a.listing.price_inr < b.listing.price_inr || (
        a.listing.price_inr == b.listing.price_inr && lex_lt(a.uuid, b.uuid)),
        SortSpec::DateAscending => lex_lt(a.listing.date, b.listing.date) || (a.listing.date
            == b.listing.date && lex_lt(a.uuid, b.uuid)),
    }
}

/// The records of `rows` that the filter accepts, in the order of `rows`.
pub open spec fn qualifying(rows: Seq<FlightView>, filter: FilterView) -> Seq<FlightView>
    decreases rows.len(),
{
    if rows.len() == 0 {
        Seq::empty()
    } else {
        let before = qualifying(rows.drop_last(), filter);
        if accepts(filter, rows.last().listing) {
            before.push(rows.last())
        } else {
            before
        }
    }
}

/// The ordered sequence `s` with `x` put in its place: behind every record that
/// does not come strictly after it.
pub open spec fn insert_ordered(s: Seq<FlightView>, x: FlightView, sort: SortSpec) -> Seq<
    FlightView,
>
    decreases s.len(),
{
    if s.len() > 0 && precedes(sort, x, s.last()) {
        insert_ordered(s.drop_last(), x, sort).push(s.last())
    } else {
        s.push(x)
    }
}

/// The records of `s` in the order of `sort`. Records that agree on sort key and
/// identifier keep the order that they have in `s`.
pub open spec fn ordered(s: Seq<FlightView>, sort: SortSpec) -> Seq<FlightView>
    decreases s.len(),
{
    if s.len() == 0 {
        Seq::empty()
    } else {
        insert_ordered(ordered(s.drop_last(), sort), s.last(), sort)
    }
}

/// The slice of `s` that starts behind `offset` records and holds up to `limit`
/// of them. It is empty where `offset` is beyond the end.
pub open spec fn page_of(s: Seq<FlightView>, limit: nat, offset: nat) -> Seq<FlightView> {
    let from = if offset <= s.len() {
        offset as int
    } else {
        s.len() as int
    };
    let to = if offset + limit <= s.len() {
        (offset + limit) as int
    } else {
        s.len() as int
    };
    s.subrange(from, to)
}

/// Everything that the filter accepts, in the order of `sort`.
pub open spec fn full_result(rows: Seq<FlightView>, filter: FilterView, sort: SortSpec) -> Seq<
    FlightView,
> {
    ordered(qualifying(rows, filter), sort)
}

/// Where `x` goes into an ordered sequence: `insert_ordered` puts it at index `p`
/// when every record from `p` on comes strictly after it and the one before `p`
/// does not.
pub proof fn lemma_insert_position(s: Seq<FlightView>, x: FlightView, sort: SortSpec, p: int)
    requires
        0 <= p <= s.len(),
        forall|j: int| p <= j < s.len() ==> precedes(sort, x, #[trigger] s[j]),
        p > 0 ==> !precedes(sort, x, s[p - 1]),
    ensures
        insert_ordered(s, x, sort) == s.insert(p, x),
    decreases s.len(),
{
    if p == s.len() {
        assert(s.push(x) =~= s.insert(p, x));
    } else {
        lemma_insert_position(s.drop_last(), x, sort, p);
        assert(s.drop_last().insert(p, x).push(s.last()) =~= s.insert(p, x));
    }
}

/// Ordering keeps the number of records.
pub proof fn lemma_ordered_len(s: Seq<FlightView>, sort: SortSpec)
    ensures
        ordered(s, sort).len() == s.len(),
    decreases s.len(),
{
    if s.len() > 0 {
        lemma_ordered_len(s.drop_last(), sort);
        lemma_insert_len(ordered(s.drop_last(), sort), s.last(), sort);
    }
}

/// Putting a record in its place adds one record.
pub proof fn lemma_insert_len(s: Seq<FlightView>, x: FlightView, sort: SortSpec)
    ensures
        insert_ordered(s, x, sort).len() == s.len() + 1,
    decreases s.len(),
{
    if s.len() > 0 && precedes(sort, x, s.last()) {
        lemma_insert_len(s.drop_last(), x, sort);
    }
}

/// The page size and the page number of a request.
#[derive(Clone, Copy, Debug, PartialEq, Eq, Structural)]
pub struct PageSpec {
    /// Page number, at least 1.
    pub page: u64,
    /// Page size, from 1 to `MAX_PAGE_SIZE`.
    pub size: u64,
}

/// The page number that is served for a requested one: 1 where none is given or
/// the given one is below 1.
pub open spec fn page_number_of(page: Option<i64>) -> int {
    match page {
        Some(p) => if p < 1 {
            1
        } else {
            p as int
        },
        None => 1,
    }
}

/// The page size that is served for a requested one: `MAX_PAGE_SIZE` where none
/// is given or more is asked for, and 1 where less than 1 is asked for.
pub open spec fn page_size_of(limit: Option<i64>) -> int {
    match limit {
        Some(l) => if l > MAX_PAGE_SIZE {
            MAX_PAGE_SIZE as int
        } else if l < 1 {
            1
        } else {
            l as int
        },
        None => MAX_PAGE_SIZE as int,
    }
}

impl PageSpec {
    /// A page number of at least 1 with a size from 1 to `MAX_PAGE_SIZE`.
    pub open spec fn is_valid(self) -> bool {
        self.page >= 1 && 1 <= self.size <= MAX_PAGE_SIZE
    }

    /// How many records come before the page.
    pub open spec fn offset(self) -> nat {
        ((self.page - 1) * self.size) as nat
    }

    /// Reads page number and page size of a request.
    pub fn from_query(page: Option<i64>, limit: Option<i64>) -> (spec: PageSpec)
        ensures
            spec.is_valid(),
            spec.page == page_number_of(page),
            spec.size == page_size_of(limit),
    {
        let number: u64 = match page {
            Some(p) => if p < 1 {
                1
            } else {
                p as u64
            },
            None => 1,
        };
        let size: u64 = match limit {
            Some(l) => if l > MAX_PAGE_SIZE as i64 {
                MAX_PAGE_SIZE
            } else if l < 1 {
                1
            } else {
                l as u64
            },
            None => MAX_PAGE_SIZE,
        };
        PageSpec { page: number, size }
    }
}

/// How many pages of `size` records hold `total` records: the quotient rounded up.
pub open spec fn pages_needed(total: nat, size: nat) -> nat
    recommends
        size > 0,
{
    ((total + size - 1) / (size as int)) as nat
}

} // verus!
