use flight_listings::models::{Flight, FlightQuery, NewFlight};
use flight_listings::query::{FilterSpec, PageSpec, SortSpec};
use flight_listings::routes::get_flights;
use flight_listings::store::{FlightStore, StoreError};
use flight_listings::text::{char_is_space, contains_name, parse_names, text_lt};

fn record(uuid: &str, date: &str, airline: &str, price: i32, rain: f32) -> NewFlight {
    NewFlight {
        uuid: uuid.to_string(),
        date: date.to_string(),
        origin: "DEL".to_string(),
        destination: "BOM".to_string(),
        airline: airline.to_string(),
        duration: "2h 10m".to_string(),
        flight_type: "direct".to_string(),
        price_inr: price,
        origin_country: "India".to_string(),
        destination_country: "India".to_string(),
        link: "https://example.org/f".to_string(),
        rain_probability: rain.to_bits(),
        free_meal: false,
        min_checked_luggage_price: None,
        min_checked_luggage_weight: None,
        total_with_min_luggage: None,
    }
}

fn store_of(records: Vec<NewFlight>) -> FlightStore {
    let mut store = FlightStore::new();
    assert_eq!(store.replace_all(&records), Ok(records.len()));
    store
}

fn no_query() -> FlightQuery {
    FlightQuery {
        page: None,
        limit: None,
        origin: None,
        destination: None,
        sort_by: None,
        max_price: None,
        airline: None,
        max_rain: None,
    }
}

fn uuids(rows: &Vec<Flight>) -> Vec<String> {
    rows.iter().map(|r| r.uuid.clone()).collect()
}

fn numbered(n: usize) -> Vec<NewFlight> {
    let mut records = Vec::new();
    for i in 0..n {
        let price = ((i * 37) % 11) as i32;
        records.push(record(&format!("u{:03}", i), "2024-01-01", "Acme", price, 0.5));
    }
    records
}

#[test]
fn white_space_is_recognised() {
    assert!(char_is_space(' '));
    assert!(char_is_space('\t'));
    assert!(char_is_space('\n'));
    assert!(char_is_space('\u{00A0}'));
    assert!(char_is_space('\u{3000}'));
    assert!(!char_is_space('a'));
    assert!(!char_is_space(','));
    assert!(!char_is_space('\u{200B}'));
    for n in 0u32..0x3100 {
        if let Some(c) = char::from_u32(n) {
            assert_eq!(char_is_space(c), c.is_whitespace());
        }
    }
}

#[test]
fn text_order_is_by_code_point() {
    assert!(text_lt("2024-01-01", "2024-01-02"));
    assert!(!text_lt("2024-01-02", "2024-01-01"));
    assert!(!text_lt("abc", "abc"));
    assert!(text_lt("ab", "abc"));
    assert!(!text_lt("abc", "ab"));
    assert!(text_lt("", "a"));
    assert!(!text_lt("", ""));
    assert!(text_lt("Z", "a"));
    assert!(text_lt("z", "\u{e9}"));
    for (a, b) in [("x", "y"), ("10", "9"), ("b", "ab"), ("\u{1F600}", "\u{FFFD}")] {
        assert_eq!(text_lt(a, b), a < b);
        assert_eq!(text_lt(b, a), b < a);
    }
}

#[test]
fn names_are_split_trimmed_and_empty_ones_dropped() {
    assert_eq!(parse_names("Acme, , Globex"), vec!["Acme".to_string(), "Globex".to_string()]);
    assert_eq!(parse_names("Acme"), vec!["Acme".to_string()]);
    assert_eq!(parse_names("  Air India ,IndiGo  "), vec!["Air India".to_string(), "IndiGo".to_string()]);
    assert_eq!(parse_names(""), Vec::<String>::new());
    assert_eq!(parse_names(" , ,,"), Vec::<String>::new());
    assert_eq!(parse_names(",Acme,"), vec!["Acme".to_string()]);
    assert_eq!(parse_names("a,a"), vec!["a".to_string(), "a".to_string()]);
}

#[test]
fn name_lookup_is_exact() {
    let names = vec!["Acme".to_string(), "Globex".to_string()];
    assert!(contains_name(&names, &"Acme".to_string()));
    assert!(contains_name(&names, &"Globex".to_string()));
    assert!(!contains_name(&names, &"Acm".to_string()));
    assert!(!contains_name(&names, &"acme".to_string()));
    assert!(!contains_name(&Vec::new(), &"Acme".to_string()));
}

#[test]
fn airline_filter_matches_listed_names_only() {
    let store = store_of(vec![
        record("a", "2024-01-01", "Acme", 100, 0.1),
        record("b", "2024-01-01", "Globex", 200, 0.1),
        record("c", "2024-01-01", "Acme Air", 300, 0.1),
        record("d", "2024-01-01", "", 400, 0.1),
        record("e", "2024-01-01", " Acme", 500, 0.1),
    ]);
    let mut query = no_query();
    query.airline = Some("Acme, , Globex".to_string());
    let filter = FilterSpec::from_query(&query);
    assert_eq!(filter.airlines, vec!["Acme".to_string(), "Globex".to_string()]);
    assert_eq!(store.count(&filter), 2);
    let rows = store.load(&filter, SortSpec::PriceAscending, 20, 0);
    assert_eq!(uuids(&rows), vec!["a", "b"]);
    let response = get_flights(&store, &query);
    assert_eq!(uuids(&response.data), vec!["a", "b"]);
    assert_eq!(response.total_items, 2);
}

#[test]
fn airline_list_without_names_constrains_nothing() {
    let store = store_of(numbered(5));
    let mut query = no_query();
    query.airline = Some(" , ".to_string());
    let response = get_flights(&store, &query);
    assert_eq!(response.total_items, 5);
    assert_eq!(response.data.len(), 5);
}

#[test]
fn sort_by_date_ignores_insertion_order() {
    let store = store_of(vec![
        record("x", "2024-01-03", "Acme", 1, 0.0),
        record("y", "2024-01-01", "Acme", 3, 0.0),
        record("z", "2024-01-02", "Acme", 2, 0.0),
    ]);
    let rows = store.load(&FilterSpec::none(), SortSpec::DateAscending, 20, 0);
    let dates: Vec<String> = rows.iter().map(|r| r.date.clone()).collect();
    assert_eq!(dates, vec!["2024-01-01", "2024-01-02", "2024-01-03"]);
    let mut query = no_query();
    query.sort_by = Some("date".to_string());
    let response = get_flights(&store, &query);
    assert_eq!(uuids(&response.data), vec!["y", "z", "x"]);
}

#[test]
fn sort_defaults_to_price() {
    assert_eq!(SortSpec::from_param(&None), SortSpec::PriceAscending);
    assert_eq!(SortSpec::from_param(&Some("price".to_string())), SortSpec::PriceAscending);
    assert_eq!(SortSpec::from_param(&Some("Date".to_string())), SortSpec::PriceAscending);
    assert_eq!(SortSpec::from_param(&Some("".to_string())), SortSpec::PriceAscending);
    assert_eq!(SortSpec::from_param(&Some("date".to_string())), SortSpec::DateAscending);
    let store = store_of(vec![
        record("x", "2024-01-01", "Acme", 300, 0.0),
        record("y", "2024-01-02", "Acme", 100, 0.0),
        record("z", "2024-01-03", "Acme", 200, 0.0),
    ]);
    let mut query = no_query();
    query.sort_by = Some("airline".to_string());
    assert_eq!(uuids(&get_flights(&store, &query).data), vec!["y", "z", "x"]);
}

#[test]
fn equal_keys_are_ordered_by_identifier_then_by_row() {
    let store = store_of(vec![
        record("m", "2024-01-01", "first", 100, 0.0),
        record("b", "2024-01-01", "second", 100, 0.0),
        record("m", "2024-01-01", "third", 100, 0.0),
        record("a", "2024-01-01", "fourth", 100, 0.0),
        record("z", "2024-01-01", "fifth", 50, 0.0),
    ]);
    let rows = store.load(&FilterSpec::none(), SortSpec::PriceAscending, 20, 0);
    let airlines: Vec<String> = rows.iter().map(|r| r.airline.clone()).collect();
    assert_eq!(airlines, vec!["fifth", "fourth", "second", "first", "third"]);
    let ids: Vec<i32> = rows.iter().map(|r| r.id).collect();
    assert_eq!(ids, vec![5, 4, 2, 1, 3]);
    let again = store.load(&FilterSpec::none(), SortSpec::PriceAscending, 20, 0);
    assert_eq!(uuids(&again), uuids(&rows));
}

#[test]
fn count_equals_length_of_unbounded_read() {
    let mut records = numbered(30);
    records.push(record("far", "2024-02-01", "Globex", 5, 0.9));
    let store = store_of(records);
    let mut query = no_query();
    query.max_price = Some(5);
    query.airline = Some("Acme".to_string());
    let filter = FilterSpec::from_query(&query);
    for sort in [SortSpec::PriceAscending, SortSpec::DateAscending] {
        let all = store.load(&filter, sort, usize::MAX, 0);
        assert_eq!(all.len(), store.count(&filter));
        assert!(all.iter().all(|r| r.price_inr <= 5 && r.airline == "Acme"));
    }
    assert_eq!(store.count(&filter), 17);
    assert_eq!(store.count(&FilterSpec::none()), 31);
    assert_eq!(store.len(), 31);
}

#[test]
fn pages_in_order_give_the_whole_result_once() {
    let store = store_of(numbered(47));
    let filter = FilterSpec::none();
    let full = store.load(&filter, SortSpec::PriceAscending, usize::MAX, 0);
    assert_eq!(full.len(), 47);
    for size in 1usize..=20 {
        let mut seen: Vec<String> = Vec::new();
        let mut page = 0usize;
        loop {
            let rows = store.load(&filter, SortSpec::PriceAscending, size, page * size);
            if rows.is_empty() {
                break;
            }
            seen.extend(uuids(&rows));
            page += 1;
        }
        assert_eq!(page, (47 + size - 1) / size);
        assert_eq!(seen, uuids(&full));
    }
}

#[test]
fn page_size_fifty_is_served_as_twenty() {
    let store = store_of(numbered(47));
    let mut fifty = no_query();
    fifty.limit = Some(50);
    fifty.page = Some(2);
    let mut twenty = no_query();
    twenty.limit = Some(20);
    twenty.page = Some(2);
    let a = get_flights(&store, &fifty);
    let b = get_flights(&store, &twenty);
    assert_eq!(a.data.len(), 20);
    assert_eq!(uuids(&a.data), uuids(&b.data));
    assert_eq!((a.page, a.total_pages, a.total_items), (b.page, b.total_pages, b.total_items));
    assert_eq!((a.page, a.total_pages, a.total_items), (2, 3, 47));
    assert_eq!(PageSpec::from_query(None, Some(50)), PageSpec::from_query(None, Some(20)));
}

#[test]
fn page_defaults_and_bounds() {
    assert_eq!(PageSpec::from_query(None, None), PageSpec { page: 1, size: 20 });
    assert_eq!(PageSpec::from_query(Some(0), Some(5)), PageSpec { page: 1, size: 5 });
    assert_eq!(PageSpec::from_query(Some(-7), Some(21)), PageSpec { page: 1, size: 20 });
    assert_eq!(PageSpec::from_query(Some(3), Some(0)), PageSpec { page: 3, size: 1 });
    assert_eq!(PageSpec::from_query(Some(i64::MAX), Some(i64::MIN)), PageSpec { page: i64::MAX as u64, size: 1 });
}

#[test]
fn page_counts_round_up() {
    let store = store_of(numbered(45));
    let r = get_flights(&store, &no_query());
    assert_eq!((r.page, r.total_pages, r.total_items, r.data.len()), (1, 3, 45, 20));
    let mut q = no_query();
    q.limit = Some(15);
    q.page = Some(3);
    let r = get_flights(&store, &q);
    assert_eq!((r.page, r.total_pages, r.total_items, r.data.len()), (3, 3, 45, 15));
    q.limit = Some(7);
    q.page = Some(7);
    let r = get_flights(&store, &q);
    assert_eq!((r.page, r.total_pages, r.total_items, r.data.len()), (7, 7, 45, 3));
    let empty = FlightStore::new();
    let r = get_flights(&empty, &no_query());
    assert_eq!((r.page, r.total_pages, r.total_items, r.data.len()), (1, 0, 0, 0));
}

#[test]
fn page_beyond_the_end_is_empty_with_counts() {
    let store = store_of(numbered(45));
    let mut q = no_query();
    q.page = Some(4);
    let r = get_flights(&store, &q);
    assert_eq!((r.page, r.total_pages, r.total_items, r.data.len()), (4, 3, 45, 0));
    q.page = Some(i64::MAX);
    let r = get_flights(&store, &q);
    assert_eq!((r.page, r.total_pages, r.total_items, r.data.len()), (i64::MAX, 3, 45, 0));
    assert!(store.load(&FilterSpec::none(), SortSpec::PriceAscending, 20, usize::MAX).is_empty());
    assert!(store.load(&FilterSpec::none(), SortSpec::PriceAscending, 0, 0).is_empty());
}

#[test]
fn page_number_below_one_is_page_one() {
    let store = store_of(numbered(45));
    let mut q = no_query();
    q.page = Some(-3);
    let r = get_flights(&store, &q);
    let first = get_flights(&store, &no_query());
    assert_eq!(r.page, 1);
    assert_eq!(uuids(&r.data), uuids(&first.data));
}

#[test]
fn counts_follow_the_filter() {
    let store = store_of(vec![
        record("a", "2024-01-01", "Acme", 100, 0.1),
        record("b", "2024-01-01", "Acme", 200, 0.1),
        record("c", "2024-01-01", "Acme", 300, 0.1),
    ]);
    let mut q = no_query();
    q.max_price = Some(200);
    q.limit = Some(1);
    let r = get_flights(&store, &q);
    assert_eq!((r.total_items, r.total_pages, r.data.len()), (2, 2, 1));
    assert_eq!(uuids(&r.data), vec!["a"]);
}

#[test]
fn origin_destination_and_price_predicates() {
    let mut from_blr = record("blr", "2024-01-01", "Acme", 100, 0.1);
    from_blr.origin = "BLR".to_string();
    let mut to_goi = record("goi", "2024-01-01", "Acme", 150, 0.1);
    to_goi.destination = "GOI".to_string();
    let store = store_of(vec![from_blr, to_goi, record("plain", "2024-01-01", "Acme", 200, 0.1)]);
    let mut q = no_query();
    q.origin = Some("DEL".to_string());
    assert_eq!(uuids(&get_flights(&store, &q).data), vec!["goi", "plain"]);
    q.destination = Some("BOM".to_string());
    assert_eq!(uuids(&get_flights(&store, &q).data), vec!["plain"]);
    q.max_price = Some(199);
    assert_eq!(get_flights(&store, &q).total_items, 0);
    q.max_price = Some(200);
    assert_eq!(get_flights(&store, &q).total_items, 1);
    q.origin = Some("del".to_string());
    assert_eq!(get_flights(&store, &q).total_items, 0);
}

#[test]
fn rain_predicate_follows_the_fractions() {
    let store = store_of(vec![
        record("dry", "2024-01-01", "Acme", 1, 0.0),
        record("low", "2024-01-01", "Acme", 2, 0.25),
        record("mid", "2024-01-01", "Acme", 3, 0.5),
        record("wet", "2024-01-01", "Acme", 4, 1.0),
    ]);
    let cases: Vec<(f32, Vec<&str>)> = vec![
        (0.5, vec!["dry", "low", "mid"]),
        (0.49, vec!["dry", "low"]),
        (0.0, vec!["dry"]),
        (-0.0, vec!["dry"]),
        (1.0, vec!["dry", "low", "mid", "wet"]),
        (7.5, vec!["dry", "low", "mid", "wet"]),
        (f32::INFINITY, vec!["dry", "low", "mid", "wet"]),
        (-0.5, vec![]),
        (f32::NEG_INFINITY, vec![]),
        (f32::NAN, vec![]),
        (-f32::NAN, vec![]),
    ];
    for (limit, expected) in cases {
        let mut q = no_query();
        q.max_rain = Some(limit.to_bits());
        let r = get_flights(&store, &q);
        assert_eq!(uuids(&r.data), expected);
        let by_fraction = [0.0f32, 0.25, 0.5, 1.0].iter().filter(|x| **x <= limit).count();
        assert_eq!(r.total_items as usize, by_fraction);
    }
}

#[test]
fn replacing_with_nothing_leaves_nothing() {
    let mut store = store_of(numbered(9));
    assert_eq!(store.count(&FilterSpec::none()), 9);
    assert_eq!(store.replace_all(&Vec::new()), Ok(0));
    assert_eq!(store.count(&FilterSpec::none()), 0);
    assert_eq!(store.len(), 0);
}

#[test]
fn replacing_discards_and_renumbers() {
    let mut store = store_of(numbered(9));
    let batch = vec![record("p", "2024-03-01", "Acme", 9, 0.2), record("q", "2024-03-02", "Acme", 8, 0.2)];
    assert_eq!(store.replace_all(&batch), Ok(2));
    let rows = store.load(&FilterSpec::none(), SortSpec::DateAscending, 20, 0);
    assert_eq!(uuids(&rows), vec!["p", "q"]);
    assert_eq!(rows.iter().map(|r| r.id).collect::<Vec<i32>>(), vec![1, 2]);
    assert_eq!(rows[0].price_inr, 9);
    assert_eq!(rows[0].rain_probability, 0.2f32.to_bits());
    assert_eq!(rows[1].link, "https://example.org/f");
}

#[test]
fn invalid_record_aborts_the_whole_replace() {
    let mut store = store_of(numbered(4));
    let mut partial = record("bad", "2024-01-01", "Acme", 1, 0.1);
    partial.min_checked_luggage_price = Some(500);
    let batch = vec![record("good", "2024-01-01", "Acme", 1, 0.1), partial];
    assert_eq!(store.replace_all(&batch), Err(StoreError::InvalidRecord));
    assert_eq!(store.len(), 4);
    assert_eq!(uuids(&store.load(&FilterSpec::none(), SortSpec::DateAscending, 20, 0)), vec!["u000", "u001", "u002", "u003"]);
    let batch = vec![record("rain", "2024-01-01", "Acme", 1, 1.5)];
    assert_eq!(store.replace_all(&batch), Err(StoreError::InvalidRecord));
    let batch = vec![record("rain", "2024-01-01", "Acme", 1, -0.1)];
    assert_eq!(store.replace_all(&batch), Err(StoreError::InvalidRecord));
    assert_eq!(store.len(), 4);
    let mut whole = record("lug", "2024-01-01", "Acme", 1, 1.0);
    whole.min_checked_luggage_price = Some(500);
    whole.min_checked_luggage_weight = Some("15kg".to_string());
    whole.total_with_min_luggage = Some(501);
    assert!(whole.is_valid());
    assert_eq!(store.replace_all(&vec![whole]), Ok(1));
    let rows = store.load(&FilterSpec::none(), SortSpec::DateAscending, 20, 0);
    assert_eq!(rows[0].min_checked_luggage_weight, Some("15kg".to_string()));
    assert_eq!(rows[0].total_with_min_luggage, Some(501));
}

#[test]
fn copies_keep_every_field() {
    let mut r = record("c", "2024-05-05", "Acme", 77, 0.75);
    r.free_meal = true;
    r.min_checked_luggage_price = Some(1);
    r.min_checked_luggage_weight = Some("w".to_string());
    r.total_with_min_luggage = Some(78);
    let copy = r.duplicate();
    assert_eq!(copy.uuid, "c");
    assert_eq!(copy.date, "2024-05-05");
    assert_eq!(copy.price_inr, 77);
    assert!(copy.free_meal);
    assert_eq!(copy.min_checked_luggage_weight, Some("w".to_string()));
    let row = r.stored_as(12);
    assert_eq!(row.id, 12);
    assert_eq!(row.airline, "Acme");
    assert_eq!(row.duplicate().total_with_min_luggage, Some(78));
    assert_eq!(row.duplicate().id, 12);
}

#[test]
fn rows_come_out_in_stored_order() {
    let store = store_of(vec![
        record("late", "2024-09-09", "Acme", 900, 0.3),
        record("early", "2024-01-01", "Globex", 100, 0.6),
    ]);
    let rows = store.rows();
    assert_eq!(uuids(&rows), vec!["late", "early"]);
    assert_eq!(rows.iter().map(|r| r.id).collect::<Vec<i32>>(), vec![1, 2]);
    assert_eq!(rows[1].airline, "Globex");
    assert_eq!(rows[1].rain_probability, 0.6f32.to_bits());
    assert!(FlightStore::new().rows().is_empty());
}

#[test]
fn order_of_two_records() {
    let cheap_late = record("b", "2024-02-01", "Acme", 10, 0.0).stored_as(1);
    let dear_early = record("a", "2024-01-01", "Acme", 20, 0.0).stored_as(2);
    assert!(SortSpec::PriceAscending.comes_before(&cheap_late, &dear_early));
    assert!(!SortSpec::PriceAscending.comes_before(&dear_early, &cheap_late));
    assert!(SortSpec::DateAscending.comes_before(&dear_early, &cheap_late));
    assert!(!SortSpec::DateAscending.comes_before(&cheap_late, &dear_early));
    assert!(!SortSpec::PriceAscending.comes_before(&cheap_late, &cheap_late));
    let twin = record("a", "2024-02-01", "Acme", 10, 0.0).stored_as(3);
    assert!(SortSpec::PriceAscending.comes_before(&twin, &cheap_late));
    assert!(SortSpec::DateAscending.comes_before(&twin, &cheap_late));
    assert!(!SortSpec::DateAscending.comes_before(&cheap_late, &twin));
}

#[test]
fn filter_without_predicates_accepts_everything() {
    let row = record("a", "2024-01-01", "", i32::MIN, 1.0).stored_as(1);
    assert!(FilterSpec::none().accepts(&row));
    let filter = FilterSpec::from_query(&no_query());
    assert!(filter.accepts(&row));
    assert!(filter.origin.is_none() && filter.destination.is_none());
    assert!(filter.max_price.is_none() && filter.max_rain.is_none() && filter.airlines.is_empty());
}

#[test]
fn served_order_is_sorted_and_complete() {
    let store = store_of(numbered(40));
    let rows = store.load(&FilterSpec::none(), SortSpec::PriceAscending, usize::MAX, 0);
    assert_eq!(rows.len(), 40);
    for pair in rows.windows(2) {
        assert!((pair[0].price_inr, &pair[0].uuid) < (pair[1].price_inr, &pair[1].uuid));
    }
    let mut seen = uuids(&rows);
    seen.sort();
    let mut all = uuids(&store.rows());
    all.sort();
    assert_eq!(seen, all);
}
