//! The records of the flight table and the shapes in which they arrive and leave.

use crate::text::copy_text;
use vstd::prelude::*;

verus! {

/// The binary32 pattern of the fraction 1.
pub const RAIN_CERTAIN: u32 = 0x3F80_0000;

/// What a record says of a flight, as mathematical values: texts are sequences of
/// characters, numbers are integers. The rain probability is kept as the binary32
/// pattern of the fraction; for fractions in [0, 1] the order of the patterns is
/// the order of the fractions.
pub ghost struct Listing {
    pub date: Seq<char>,
    pub origin: Seq<char>,
    pub destination: Seq<char>,
    pub airline: Seq<char>,
    pub duration: Seq<char>,
    pub flight_type: Seq<char>,
    pub price_inr: int,
    pub origin_country: Seq<char>,
    pub destination_country: Seq<char>,
    pub link: Seq<char>,
    pub rain_probability: nat,
    pub free_meal: bool,
    pub min_checked_luggage_price: Option<int>,
    pub min_checked_luggage_weight: Option<Seq<char>>,
    pub total_with_min_luggage: Option<int>,
}

impl Listing {
    /// The rain probability is a fraction in [0, 1], and the three luggage fields
    /// are present together or absent together.
    pub open spec fn is_valid(self) -> bool {
        &&& self.rain_probability <= RAIN_CERTAIN
        &&& self.min_checked_luggage_price.is_some()
            == self.min_checked_luggage_weight.is_some()
        &&& self.min_checked_luggage_price.is_some() == self.total_with_min_luggage.is_some()
    }
}

/// A stored record.
pub struct Flight {
    /// Row number in the table.
    pub id: i32,
    /// Identifier of the record.
    pub uuid: String,
    /// Travel date as text.
    pub date: String,
    /// Origin code.
    pub origin: String,
    /// Destination code.
    pub destination: String,
    /// Name of the airline.
    pub airline: String,
    /// Duration as text.
    pub duration: String,
    /// Category of the flight.
    pub flight_type: String,
    /// Price in whole rupees.
    pub price_inr: i32,
    /// Country of the origin.
    pub origin_country: String,
    /// Country of the destination.
    pub destination_country: String,
    /// Link to the offer.
    pub link: String,
    /// Rain probability: the binary32 pattern of a fraction in [0, 1].
    pub rain_probability: u32,
    /// Whether a meal is included.
    pub free_meal: bool,
    /// Lowest price of checked luggage, where luggage data is present.
    pub min_checked_luggage_price: Option<i32>,
    /// Weight that the lowest luggage price buys, where luggage data is present.
    pub min_checked_luggage_weight: Option<String>,
    /// Price with the cheapest luggage, where luggage data is present.
    pub total_with_min_luggage: Option<i32>,
}

/// The mathematical value of a stored record.
pub ghost struct FlightView {
    pub id: int,
    pub uuid: Seq<char>,
    pub listing: Listing,
}

impl Flight {
    /// What the record says of the flight.
    pub open spec fn listing(&self) -> Listing {
        Listing {
            date: self.date@,
            origin: self.origin@,
            destination: self.destination@,
            airline: self.airline@,
            duration: self.duration@,
            flight_type: self.flight_type@,
            price_inr: self.price_inr as int,
            origin_country: self.origin_country@,
            destination_country: self.destination_country@,
            link: self.link@,
            rain_probability: self.rain_probability as nat,
            free_meal: self.free_meal,
            min_checked_luggage_price: match self.min_checked_luggage_price { Some(v) => Some(v as int), None => None },
            min_checked_luggage_weight: match self.min_checked_luggage_weight { Some(v) => Some(v@), None => None },
            total_with_min_luggage: match self.total_with_min_luggage { Some(v) => Some(v as int), None => None },
        }
    }

    /// A copy of the record.
    pub fn duplicate(&self) -> (copy: Flight)
        ensures
            copy@ == self@,
    {
        Flight {
            id: self.id,
            uuid: self.uuid.clone(),
            date: self.date.clone(),
            origin: self.origin.clone(),
            destination: self.destination.clone(),
            airline: self.airline.clone(),
            duration: self.duration.clone(),
            flight_type: self.flight_type.clone(),
            price_inr: self.price_inr,
            origin_country: self.origin_country.clone(),
            destination_country: self.destination_country.clone(),
            link: self.link.clone(),
            rain_probability: self.rain_probability,
            free_meal: self.free_meal,
            min_checked_luggage_price: self.min_checked_luggage_price,
            min_checked_luggage_weight: copy_text(&self.min_checked_luggage_weight),
            total_with_min_luggage: self.total_with_min_luggage,
        }
    }
}

impl View for Flight {
    type V = FlightView;

    open spec fn view(&self) -> FlightView {
        FlightView { id: self.id as int, uuid: self.uuid@, listing: self.listing() }
    }
}

/// A record as a caller submits it: the identifier may be left out.
pub struct InputFlight {
    /// Identifier of the record, if the caller chose one.
    pub uuid: Option<String>,
    /// Travel date as text.
    pub date: String,
    /// Origin code.
    pub origin: String,
    /// Destination code.
    pub destination: String,
    /// Name of the airline.
    pub airline: String,
    /// Duration as text.
    pub duration: String,
    /// Category of the flight.
    pub flight_type: String,
    /// Price in whole rupees.
    pub price_inr: i32,
    /// Country of the origin.
    pub origin_country: String,
    /// Country of the destination.
    pub destination_country: String,
    /// Link to the offer.
    pub link: String,
    /// Rain probability: the binary32 pattern of a fraction in [0, 1].
    pub rain_probability: u32,
    /// Whether a meal is included.
    pub free_meal: bool,
    /// Lowest price of checked luggage, where luggage data is present.
    pub min_checked_luggage_price: Option<i32>,
    /// Weight that the lowest luggage price buys, where luggage data is present.
    pub min_checked_luggage_weight: Option<String>,
    /// Price with the cheapest luggage, where luggage data is present.
    pub total_with_min_luggage: Option<i32>,
}

/// The mathematical value of a submitted record.
pub ghost struct InputFlightView {
    pub uuid: Option<Seq<char>>,
    pub listing: Listing,
}

impl InputFlight {
    /// What the record says of the flight.
    pub open spec fn listing(&self) -> Listing {
        Listing {
            date: self.date@,
            origin: self.origin@,
            destination: self.destination@,
            airline: self.airline@,
            duration: self.duration@,
            flight_type: self.flight_type@,
            price_inr: self.price_inr as int,
            origin_country: self.origin_country@,
            destination_country: self.destination_country@,
            link: self.link@,
            rain_probability: self.rain_probability as nat,
            free_meal: self.free_meal,
            min_checked_luggage_price: match self.min_checked_luggage_price { Some(v) => Some(v as int), None => None },
            min_checked_luggage_weight: match self.min_checked_luggage_weight { Some(v) => Some(v@), None => None },
            total_with_min_luggage: match self.total_with_min_luggage { Some(v) => Some(v as int), None => None },
        }
    }

    /// A copy of the record.
    pub fn duplicate(&self) -> (copy: InputFlight)
        ensures
            copy@ == self@,
    {
        InputFlight {
            uuid: copy_text(&self.uuid),
            date: self.date.clone(),
            origin: self.origin.clone(),
            destination: self.destination.clone(),
            airline: self.airline.clone(),
            duration: self.duration.clone(),
            flight_type: self.flight_type.clone(),
            price_inr: self.price_inr,
            origin_country: self.origin_country.clone(),
            destination_country: self.destination_country.clone(),
            link: self.link.clone(),
            rain_probability: self.rain_probability,
            free_meal: self.free_meal,
            min_checked_luggage_price: self.min_checked_luggage_price,
            min_checked_luggage_weight: copy_text(&self.min_checked_luggage_weight),
            total_with_min_luggage: self.total_with_min_luggage,
        }
    }

    /// Tests what `Listing::is_valid` states.
    pub fn is_valid(&self) -> (ok: bool)
        ensures
            ok == self@.listing.is_valid(),
    {
        self.rain_probability <= RAIN_CERTAIN && self.min_checked_luggage_price.is_some()
            == self.min_checked_luggage_weight.is_some()
            && self.min_checked_luggage_price.is_some() == self.total_with_min_luggage.is_some()
    }
}

impl View for InputFlight {
    type V = InputFlightView;

    open spec fn view(&self) -> InputFlightView {
        InputFlightView {
            uuid: match self.uuid {
                Some(u) => Some(u@),
                None => None,
            },
            listing: self.listing(),
        }
    }
}

/// A record ready to be stored: it has its identifier, and no row number yet.
pub struct NewFlight {
    /// Identifier of the record.
    pub uuid: String,
    /// Travel date as text.
    pub date: String,
    /// Origin code.
    pub origin: String,
    /// Destination code.
    pub destination: String,
    /// Name of the airline.
    pub airline: String,
    /// Duration as text.
    pub duration: String,
    /// Category of the flight.
    pub flight_type: String,
    /// Price in whole rupees.
    pub price_inr: i32,
    /// Country of the origin.
    pub origin_country: String,
    /// Country of the destination.
    pub destination_country: String,
    /// Link to the offer.
    pub link: String,
    /// Rain probability: the binary32 pattern of a fraction in [0, 1].
    pub rain_probability: u32,
    /// Whether a meal is included.
    pub free_meal: bool,
    /// Lowest price of checked luggage, where luggage data is present.
    pub min_checked_luggage_price: Option<i32>,
    /// Weight that the lowest luggage price buys, where luggage data is present.
    pub min_checked_luggage_weight: Option<String>,
    /// Price with the cheapest luggage, where luggage data is present.
    pub total_with_min_luggage: Option<i32>,
}

/// The mathematical value of a record ready to be stored.
pub ghost struct NewFlightView {
    pub uuid: Seq<char>,
    pub listing: Listing,
}

impl View for NewFlight {
    type V = NewFlightView;

    open spec fn view(&self) -> NewFlightView {
        NewFlightView { uuid: self.uuid@, listing: self.listing() }
    }
}

/// Number of characters of a generated identifier.
pub const GENERATED_ID_LEN: usize = 36;

/// Calls `uuid::Uuid::new_v4` and writes the value with `to_string`. The value is
/// random, so nothing is said of which identifier comes back; `to_string` writes a
/// UUID in its hyphenated form, 32 hexadecimal digits in five groups, which is all
/// that the contract claims: 36 characters. That two calls give two different
/// identifiers is a matter of chance and is not claimed. `new_v4` panics if the
/// system has no source of random bytes.
#[verifier::external_body]
fn fresh_uuid() -> (id: String)
    ensures
        id@.len() == GENERATED_ID_LEN,
{
    uuid::Uuid::new_v4().to_string()
}

impl NewFlight {
    /// What the record says of the flight.
    pub open spec fn listing(&self) -> Listing {
        Listing {
            date: self.date@,
            origin: self.origin@,
            destination: self.destination@,
            airline: self.airline@,
            duration: self.duration@,
            flight_type: self.flight_type@,
            price_inr: self.price_inr as int,
            origin_country: self.origin_country@,
            destination_country: self.destination_country@,
            link: self.link@,
            rain_probability: self.rain_probability as nat,
            free_meal: self.free_meal,
            min_checked_luggage_price: match self.min_checked_luggage_price { Some(v) => Some(v as int), None => None },
            min_checked_luggage_weight: match self.min_checked_luggage_weight { Some(v) => Some(v@), None => None },
            total_with_min_luggage: match self.total_with_min_luggage { Some(v) => Some(v as int), None => None },
        }
    }

    /// The identifier that a submitted record is stored under when `generated` is
    /// the identifier at hand for records that bring none.
    pub open spec fn chosen_uuid(flight: InputFlightView, generated: Seq<char>) -> Seq<char> {
        match flight.uuid {
            Some(u) => u,
            None => generated,
        }
    }

    /// Completes a submitted record with `generated` where it brings no identifier
    /// of its own.
    pub fn with_uuid(flight: InputFlight, generated: String) -> (record: NewFlight)
        ensures
            record@.listing == flight@.listing,
            record@.uuid == Self::chosen_uuid(flight@, generated@),
    {
        let uuid: String = match flight.uuid {
            Some(u) => u,
            None => generated,
        };
        NewFlight {
            uuid,
            date: flight.date,
            origin: flight.origin,
            destination: flight.destination,
            airline: flight.airline,
            duration: flight.duration,
            flight_type: flight.flight_type,
            price_inr: flight.price_inr,
            origin_country: flight.origin_country,
            destination_country: flight.destination_country,
            link: flight.link,
            rain_probability: flight.rain_probability,
            free_meal: flight.free_meal,
            min_checked_luggage_price: flight.min_checked_luggage_price,
            min_checked_luggage_weight: flight.min_checked_luggage_weight,
            total_with_min_luggage: flight.total_with_min_luggage,
        }
    }

    /// Turns a submitted record into one ready to be stored. The identifier that
    /// the caller supplied is kept; where there is none, a fresh one is generated,
    /// which has 36 characters.
    pub fn from(flight: InputFlight) -> (record: NewFlight)
        ensures
            record@.listing == flight@.listing,
            flight@.uuid.is_some() ==> record@.uuid == flight@.uuid.unwrap(),
            flight@.uuid.is_none() ==> record@.uuid.len() == GENERATED_ID_LEN,
    {
        if flight.uuid.is_some() {
            Self::with_uuid(flight, String::new())
        } else {
            let generated: String = fresh_uuid();
            Self::with_uuid(flight, generated)
        }
    }

    /// A copy of the record.
    pub fn duplicate(&self) -> (copy: NewFlight)
        ensures
            copy@ == self@,
    {
        NewFlight {
            uuid: self.uuid.clone(),
            date: self.date.clone(),
            origin: self.origin.clone(),
            destination: self.destination.clone(),
            airline: self.airline.clone(),
            duration: self.duration.clone(),
            flight_type: self.flight_type.clone(),
            price_inr: self.price_inr,
            origin_country: self.origin_country.clone(),
            destination_country: self.destination_country.clone(),
            link: self.link.clone(),
            rain_probability: self.rain_probability,
            free_meal: self.free_meal,
            min_checked_luggage_price: self.min_checked_luggage_price,
            min_checked_luggage_weight: copy_text(&self.min_checked_luggage_weight),
            total_with_min_luggage: self.total_with_min_luggage,
        }
    }

    /// The record as row number `id` of the table.
    pub fn stored_as(&self, id: i32) -> (row: Flight)
        ensures
            row@ == (FlightView { id: id as int, uuid: self@.uuid, listing: self@.listing }),
    {
        Flight {
            id,
            uuid: self.uuid.clone(),
            date: self.date.clone(),
            origin: self.origin.clone(),
            destination: self.destination.clone(),
            airline: self.airline.clone(),
            duration: self.duration.clone(),
            flight_type: self.flight_type.clone(),
            price_inr: self.price_inr,
            origin_country: self.origin_country.clone(),
            destination_country: self.destination_country.clone(),
            link: self.link.clone(),
            rain_probability: self.rain_probability,
            free_meal: self.free_meal,
            min_checked_luggage_price: self.min_checked_luggage_price,
            min_checked_luggage_weight: copy_text(&self.min_checked_luggage_weight),
            total_with_min_luggage: self.total_with_min_luggage,
        }
    }

    /// Tests what `Listing::is_valid` states.
    pub fn is_valid(&self) -> (ok: bool)
        ensures
            ok == self@.listing.is_valid(),
    {
        self.rain_probability <= RAIN_CERTAIN && self.min_checked_luggage_price.is_some()
            == self.min_checked_luggage_weight.is_some()
            && self.min_checked_luggage_price.is_some() == self.total_with_min_luggage.is_some()
    }
}

/// The parameters of a retrieval request as they arrive, each of them optional.
pub struct FlightQuery {
    /// Page number, counted from 1.
    pub page: Option<i64>,
    /// Requested page size.
    pub limit: Option<i64>,
    /// Only flights from this origin.
    pub origin: Option<String>,
    /// Only flights to this destination.
    pub destination: Option<String>,
    /// Sort key: `date`, or anything else for the price.
    pub sort_by: Option<String>,
    /// Only flights that cost no more than this.
    pub max_price: Option<i32>,
    /// Only flights of these airlines: names separated by commas.
    pub airline: Option<String>,
    /// Only flights whose rain probability is no more than this fraction, given as
    /// its binary32 pattern.
    pub max_rain: Option<u32>,
}

} // verus!
