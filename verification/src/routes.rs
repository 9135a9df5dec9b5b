//! The two requests: reading a page of flights, and replacing the table.

use crate::models::{
    Flight, FlightQuery, FlightView, InputFlight, InputFlightView, NewFlight, NewFlightView,
    GENERATED_ID_LEN,
};
use crate::query::{
    filter_of, full_result, lemma_ordered_len, page_number_of, page_of, page_size_of,
    pages_needed, qualifying, sort_of, FilterSpec, PageSpec, SortSpec,
};
use crate::store::{
    batch_views, row_views, storable, stored, FlightStore, MAX_ROWS,
};
use vstd::prelude::*;

verus! {

/// Why a request failed, or what went wrong beside it.
#[derive(Clone, Copy, Debug, PartialEq, Eq, Structural)]
pub enum ServiceError {
    /// The credential is not the configured secret.
    Unauthorized,
    /// The submitted batch is malformed or incomplete.
    InvalidPayload,
    /// The table cannot be reached.
    StorageUnavailable,
    /// The table was reached and refused the operation.
    StorageOperationFailed,
    /// The remote copy could not be fetched at start. Not fatal.
    RemoteFetchFailed,
    /// The remote copy could not be written after a replacement. Not fatal.
    RemoteFlushFailed,
}

impl ServiceError {
    /// The HTTP status that a request ends with when it meets this error. The two
    /// remote errors do not fail a request.
    pub open spec fn status_of(self) -> int {
        match self {
            ServiceError::Unauthorized => 401,
            ServiceError::InvalidPayload => 400,
            ServiceError::StorageUnavailable => 503,
            ServiceError::StorageOperationFailed => 500,
            ServiceError::RemoteFetchFailed => 200,
            ServiceError::RemoteFlushFailed => 200,
        }
    }

    /// The HTTP status for this error.
    pub fn status(self) -> (code: u16)
        ensures
            code == self.status_of(),
    {
        match self {
            ServiceError::Unauthorized => 401,
            ServiceError::InvalidPayload => 400,
            ServiceError::StorageUnavailable => 503,
            ServiceError::StorageOperationFailed => 500,
            ServiceError::RemoteFetchFailed => 200,
            ServiceError::RemoteFlushFailed => 200,
        }
    }
}

/// One page of flights with the counts that belong to it.
pub struct PaginatedFlightResponse {
    /// The records of the page, in order.
    pub data: Vec<Flight>,
    /// The page number that was served.
    pub page: i64,
    /// Number of pages that the qualifying records fill.
    pub total_pages: i64,
    /// Number of qualifying records.
    pub total_items: i64,
}

/// The order that a request asks for.
pub open spec fn requested_sort(query: &FlightQuery) -> SortSpec {
    sort_of(
        match query.sort_by {
            Some(s) => Some(s@),
            None => None,
        },
    )
}

/// The records that make the page a request asks for.
pub open spec fn requested_page(rows: Seq<FlightView>, query: &FlightQuery) -> Seq<FlightView> {
    let size = page_size_of(query.limit);
    let number = page_number_of(query.page);
    page_of(
        full_result(rows, filter_of(query), requested_sort(query)),
        size as nat,
        ((number - 1) * size) as nat,
    )
}

/// Serves a retrieval request: the records that the request's filter accepts, in
/// the order it asks for, cut to the page it asks for, together with the number
/// of qualifying records and of the pages they fill. Page and counts use the same
/// filter. A page beyond the last one is empty and carries the same counts.
pub fn get_flights(store: &FlightStore, query: &FlightQuery) -> (response: PaginatedFlightResponse)
    ensures
        row_views(response.data@) == requested_page(store@, query),
        response.page == page_number_of(query.page),
        response.total_items == qualifying(store@, filter_of(query)).len(),
        response.total_pages == pages_needed(
            qualifying(store@, filter_of(query)).len(),
            page_size_of(query.limit) as nat,
        ),
{
    let filter: FilterSpec = FilterSpec::from_query(query);
    let sort: SortSpec = SortSpec::from_param(&query.sort_by);
    let paging: PageSpec = PageSpec::from_query(query.page, query.limit);
    let total: usize = store.count(&filter);
    proof {
        lemma_ordered_len(qualifying(store@, filter@), sort);
    }
    let ahead: u64 = paging.page - 1;
    let offset: usize = if ahead > MAX_ROWS as u64 {
        assert(ahead * paging.size >= ahead) by (nonlinear_arith)
            requires
                paging.size >= 1,
                ahead >= 0,
        ;
        MAX_ROWS
    } else {
        assert(ahead * paging.size <= 0x7FFF_FFFF * 20) by (nonlinear_arith)
            requires
                0 <= ahead <= 0x7FFF_FFFF,
                0 <= paging.size <= 20,
        ;
        let skipped: u64 = ahead * paging.size;
        if skipped > MAX_ROWS as u64 {
            MAX_ROWS
        } else {
            skipped as usize
        }
    };
    let data: Vec<Flight> = store.load(&filter, sort, paging.size as usize, offset);
    let total_pages: u64 = (total as u64 + paging.size - 1) / paging.size;
    PaginatedFlightResponse {
        data,
        page: paging.page as i64,
        total_pages: total_pages as i64,
        total_items: total as i64,
    }
}

/// The mathematical values of a submitted batch.
pub open spec fn input_views(batch: Seq<InputFlight>) -> Seq<InputFlightView> {
    Seq::new(batch.len(), |i: int| batch[i]@)
}

/// Whether a submitted batch can be stored: every record is valid.
pub open spec fn acceptable(batch: Seq<InputFlightView>) -> bool {
    forall|i: int| 0 <= i < batch.len() ==> (#[trigger] batch[i]).listing.is_valid()
}

/// Whether `record` is the submitted record `flight` made ready to be stored: the
/// same flight, under the identifier that was supplied or else under a generated
/// one.
pub open spec fn completes(flight: InputFlightView, record: NewFlightView) -> bool {
    &&& record.listing == flight.listing
    &&& flight.uuid.is_some() ==> record.uuid == flight.uuid.unwrap()
    &&& flight.uuid.is_none() ==> record.uuid.len() == GENERATED_ID_LEN
}

/// Whether `rows` is what the table holds after it took `batch`: the records in
/// their order, numbered from 1, each with the identifier it brought or else with
/// a generated one.
pub open spec fn holds_batch(rows: Seq<FlightView>, batch: Seq<InputFlightView>) -> bool {
    &&& rows.len() == batch.len()
    &&& forall|i: int|
        0 <= i < rows.len() ==> {
            &&& (#[trigger] rows[i]).id == i + 1
            &&& completes(batch[i], NewFlightView { uuid: rows[i].uuid, listing: rows[i].listing })
        }
}

/// The error that a replacement request meets before anything is written, if any:
/// a wrong credential first, then a missing or unacceptable batch, then one that
/// is too large for the table.
pub open spec fn refusal(
    password: Seq<char>,
    secret: Seq<char>,
    payload: Option<Seq<InputFlightView>>,
) -> Option<ServiceError> {
    if password != secret {
        Some(ServiceError::Unauthorized)
    } else if payload.is_none() || !acceptable(payload.unwrap()) {
        Some(ServiceError::InvalidPayload)
    } else if payload.unwrap().len() > MAX_ROWS {
        Some(ServiceError::StorageOperationFailed)
    } else {
        None
    }
}

/// Serves a replacement request. `payload` is the submitted batch, or `None`
/// where the body could not be read as one. With the right credential and an
/// acceptable batch the table afterwards holds exactly the batch, whatever it
/// held before, and the number of records is returned. Otherwise the request is
/// refused and the table stays as it was.
pub fn insert_flights(
    store: &mut FlightStore,
    password: &str,
    secret: &str,
    payload: Option<Vec<InputFlight>>,
) -> (inserted: Result<usize, ServiceError>)
    ensures
        match inserted {
            Ok(n) => {
                &&& refusal(
                    password@,
                    secret@,
                    match payload {
                        Some(b) => Some(input_views(b@)),
                        None => None,
                    },
                ).is_none()
                &&& n == payload.unwrap().len()
                &&& holds_batch(final(store)@, input_views(payload.unwrap()@))
                &&& final(store).wf()
            },
            Err(e) => {
                &&& refusal(
                    password@,
                    secret@,
                    match payload {
                        Some(b) => Some(input_views(b@)),
                        None => None,
                    },
                ) == Some(e)
                &&& final(store)@ == old(store)@
            },
        },
{
    let given: String = password.to_owned();
    let wanted: String = secret.to_owned();
    if given != wanted {
        return Err(ServiceError::Unauthorized);
    }
    let batch: Vec<InputFlight> = match payload {
        Some(b) => b,
        None => {
            return Err(ServiceError::InvalidPayload);
        },
    };
    let n: usize = batch.len();
    let mut i: usize = 0;
    while i < n
        invariant
            i <= n,
            n == batch.len(),
            password@ == secret@,
            payload == Some(batch),
            store@ == old(store)@,
            forall|j: int| 0 <= j < i ==> (#[trigger] input_views(batch@)[j]).listing.is_valid(),
        decreases n - i,
    {
        if !batch[i].is_valid() {
            assert(!input_views(batch@)[i as int].listing.is_valid());
            assert(!acceptable(input_views(batch@)));
            return Err(ServiceError::InvalidPayload);
        }
        i += 1;
    }
    if n > MAX_ROWS {
        return Err(ServiceError::StorageOperationFailed);
    }
    let mut records: Vec<NewFlight> = Vec::new();
    i = 0;
    while i < n
        invariant
            i <= n,
            n == batch.len(),
            records.len() == i,
            forall|j: int| 0 <= j < i ==> completes(batch@[j]@, #[trigger] records@[j]@),
        decreases n - i,
    {
        let record: NewFlight = NewFlight::from(batch[i].duplicate());
        records.push(record);
        i += 1;
    }
    proof {
        assert forall|j: int| 0 <= j < n implies (#[trigger] batch_views(
            records@,
        )[j]).listing.is_valid() by {
            assert(completes(batch@[j]@, records@[j]@));
            assert(input_views(batch@)[j].listing.is_valid());
        }
        assert(storable(batch_views(records@)));
        assert forall|j: int| 0 <= j < n implies {
            &&& (#[trigger] stored(batch_views(records@))[j]).id == j + 1
            &&& completes(
                input_views(batch@)[j],
                NewFlightView {
                    uuid: stored(batch_views(records@))[j].uuid,
                    listing: stored(batch_views(records@))[j].listing,
                },
            )
        } by {
            assert(completes(batch@[j]@, records@[j]@));
        }
    }
    match store.replace_all(&records) {
        Ok(written) => Ok(written),
        Err(_) => Err(ServiceError::StorageOperationFailed),
    }
}

/// How a replacement request that wrote the table is answered.
pub enum IngestReply {
    /// The table was written and the remote copy follows it.
    Success {
        /// Number of records written.
        inserted: usize,
    },
    /// The table was written; the remote copy could not be. The table stays as
    /// written.
    Warning {
        /// Number of records written.
        inserted: usize,
        /// Why the remote copy could not be written.
        sync_error: String,
    },
}

/// Answers a replacement request that wrote `inserted` records, given how the
/// push of the table to the remote store ended. A failed push makes the answer a
/// warning, never a failure.
pub fn ingest_reply(inserted: usize, flush: Result<(), String>) -> (reply: IngestReply)
    ensures
        match flush {
            Ok(_) => reply matches IngestReply::Success { inserted: n } && n == inserted,
            Err(why) => reply matches IngestReply::Warning { inserted: n, sync_error: e } && n
                == inserted && e@ == why@,
        },
{
    match flush {
        Ok(_) => IngestReply::Success { inserted },
        Err(why) => IngestReply::Warning { inserted, sync_error: why },
    }
}

} // verus!
