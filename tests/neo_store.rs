use neo_store::date::{parse_date, CalendarDate};
use neo_store::cache_fill::{CacheFill, Step};
use neo_store::error::AppError;
use neo_store::json::Json;
use neo_store::neo::{CreateDateRange, CreateNeo, DateRange, GetNeoById, IntoNeoId, NeoId};
use neo_store::normalize::{feed_from_json, flatten, normalize, object_from_json};
use neo_store::reconcile::{fetch_records, Query, Store};
use neo_store::text::{check_decimal, int_to_text, parse_int, strip_quoting};

fn approach(date: &str, velocity: &str) -> String {
    format!(
        "{{\"close_approach_date\": \"{}\", \"relative_velocity\": {{\"miles_per_hour\": \"{}\"}}, \"miss_distance\": {{\"miles\": \"28144112.5\"}}, \"orbiting_body\": \"Earth\"}}",
        date, velocity
    )
}

fn object(id: &str, name_key: &str, name: &str, approaches: &[String]) -> String {
    format!(
        "{{\"id\": \"{}\", \"{}\": \"{}\", \"estimated_diameter\": {{\"miles\": {{\"estimated_diameter_min\": 0.2011, \"estimated_diameter_max\": 0.4497}}}}, \"is_potentially_hazardous_asteroid\": true, \"close_approach_data\": [{}]}}",
        id,
        name_key,
        name,
        approaches.join(", ")
    )
}

fn two_by_two_feed(bad_velocity: bool) -> String {
    let v2 = if bad_velocity { "abc" } else { "41000.5" };
    let aps_a = vec![approach("2015-09-07", "40888.3"), approach("2015-09-08", v2)];
    let aps_b = vec![approach("2015-09-07", "12.25"), approach("2015-09-08", "13.5")];
    let day1 = vec![
        object("2465633", "name", "465633 (2009 JR5)", &aps_a),
        object("3426410", "name", "(2008 QV11)", &aps_b),
    ];
    let day2 = vec![
        object("3553060", "name", "(2010 XT10)", &aps_b),
        object("3726710", "name", "(2015 RC)", &aps_b),
    ];
    format!(
        "{{\"near_earth_objects\": {{\"2015-09-07\": [{}], \"2015-09-08\": [{}]}}}}",
        day1.join(", "),
        day2.join(", ")
    )
}

fn create(date: &str) -> CreateNeo {
    CreateNeo {
        api_id: 2465633,
        designation: "465633 (2009 JR5)".to_string(),
        diameter_min: "0.2011".to_string(),
        diameter_max: "0.4497".to_string(),
        hazardous_asteroid: true,
        approach_date: date.to_string(),
        velocity: "40888.3".to_string(),
        miss_distance: "28144112.5".to_string(),
        orbiting_body: "Earth".to_string(),
    }
}

#[test]
fn it_works() {
    let result = 2 + 2;
    assert_eq!(result, 4);
}

#[test]
fn date_text_round_trips() {
    let d = parse_date("2015-09-07").unwrap();
    assert_eq!(d, CalendarDate { year: 2015, month: 9, day: 7 });
    assert_eq!(d.to_iso_string(), "2015-09-07");
    let leap = parse_date("2016-02-29").unwrap();
    assert_eq!(leap.to_iso_string(), "2016-02-29");
    let early = CalendarDate { year: 7, month: 1, day: 2 };
    assert_eq!(early.to_iso_string(), "0007-01-02");
    assert_eq!(parse_date(&early.to_iso_string()), Some(early));
}

#[test]
fn malformed_dates_are_rejected() {
    assert_eq!(parse_date("2015-02-30"), None);
    assert_eq!(parse_date("1900-02-29"), None);
    assert_eq!(parse_date("2015-9-7"), None);
    assert_eq!(parse_date("2015/09/07"), None);
    assert_eq!(parse_date("2015-13-01"), None);
    assert_eq!(parse_date(""), None);
    assert_eq!(parse_date("2015-09-07 "), None);
}

#[test]
fn date_order() {
    let a = CalendarDate { year: 2015, month: 9, day: 7 };
    let b = CalendarDate { year: 2015, month: 10, day: 1 };
    assert!(a.is_no_later_than(&b));
    assert!(!b.is_no_later_than(&a));
    assert!(a.is_no_later_than(&a));
}

#[test]
fn quoting_is_stripped() {
    assert_eq!(strip_quoting("\"40888.3\""), "40888.3");
    assert_eq!(strip_quoting("a\\\"b\\\"c"), "abc");
    assert_eq!(strip_quoting(""), "");
}

#[test]
fn decimal_texts() {
    assert!(check_decimal("40888.3"));
    assert!(check_decimal("0.2011"));
    assert!(check_decimal("-.5"));
    assert!(check_decimal("7."));
    assert!(check_decimal("1e20"));
    assert!(check_decimal("2.5E-3"));
    assert!(!check_decimal("abc"));
    assert!(!check_decimal("."));
    assert!(!check_decimal("1e"));
    assert!(!check_decimal(""));
    assert!(!check_decimal("1.2.3"));
}

#[test]
fn integer_texts() {
    assert_eq!(parse_int("2465633"), Some(2465633));
    assert_eq!(parse_int("-5"), Some(-5));
    assert_eq!(parse_int("+7"), Some(7));
    assert_eq!(parse_int("2147483647"), Some(i32::MAX));
    assert_eq!(parse_int("-2147483648"), Some(i32::MIN));
    assert_eq!(parse_int("2147483648"), None);
    assert_eq!(parse_int("99999999999"), None);
    assert_eq!(parse_int(""), None);
    assert_eq!(parse_int("-"), None);
    assert_eq!(parse_int("12a"), None);
    assert_eq!(int_to_text(-120), "-120");
    assert_eq!(int_to_text(0), "0");
    assert_eq!(int_to_text(i32::MIN), "-2147483648");
}

#[test]
fn neo_ids_convert() {
    assert_eq!(NeoId::from(5), NeoId(5));
    assert_eq!(i32::from(NeoId(9)), 9);
    assert_eq!(3.into_neo_id(), NeoId(3));
    assert_eq!(NeoId(4).into_neo_id(), NeoId(4));
}

#[test]
fn json_decodes_to_tree() {
    let j = Json::parse("{\"a\": \"x\", \"b\": [1, true, null]}").unwrap();
    match j.get("a") {
        Some(Json::Str(s)) => assert_eq!(s, "x"),
        other => panic!("unexpected {:?}", other),
    }
    match j.get("b") {
        Some(Json::Array(items)) => {
            assert_eq!(items.len(), 3);
            assert!(matches!(&items[0], Json::Number(t) if t == "1"));
            assert!(matches!(&items[1], Json::Bool(true)));
            assert!(matches!(&items[2], Json::Null));
        }
        other => panic!("unexpected {:?}", other),
    }
    assert!(j.get("c").is_none());
    assert_eq!(Json::parse("{not json").err(), Some(AppError::SerdeFailedParse));
}

#[test]
fn feed_flattens_to_one_record_per_approach() {
    let doc = Json::parse(&two_by_two_feed(false)).unwrap();
    let feed = feed_from_json(&doc).unwrap();
    assert_eq!(feed.near_earth_objects.len(), 2);
    assert_eq!(feed.near_earth_objects[0].date.len(), 2);
    assert_eq!(feed.near_earth_objects[1].date[0].designation, "(2010 XT10)");
    let objs = feed.into_objects();
    assert_eq!(objs.len(), 4);
    assert_eq!(objs[2].designation, "(2010 XT10)");
    let recs = flatten(&objs).unwrap();
    assert_eq!(recs.len(), 8);
    assert_eq!(recs[0].designation, "465633 (2009 JR5)");
    assert_eq!(recs[1].designation, "465633 (2009 JR5)");
    assert_eq!(recs[2].designation, "(2008 QV11)");
    assert_eq!(recs[7].designation, "(2015 RC)");
    for r in &recs {
        assert_eq!(r.diameter_min, "0.2011");
        assert_eq!(r.diameter_max, "0.4497");
        assert!(r.hazardous_asteroid);
        assert_eq!(r.id, NeoId(0));
        assert_eq!(r.orbiting_body, "Earth");
    }
    assert_eq!(recs[0].api_id, 2465633);
    assert_eq!(recs[1].api_id, 2465633);
    assert_eq!(recs[1].velocity, "41000.5");
    assert_eq!(recs[1].approach_date, CalendarDate { year: 2015, month: 9, day: 8 });
    assert_eq!(recs[6].api_id, 3726710);
}

#[test]
fn bad_velocity_fails_the_feed() {
    let mut store = Store::new();
    let b = parse_date("2015-09-07").unwrap();
    let e = parse_date("2015-09-08").unwrap();
    let q = Query::DateRange { begin: b, end: e };
    let feed = two_by_two_feed(true);
    let r = store.resolve(&q, Some(&feed));
    assert_eq!(r.err(), Some(AppError::SerdeFailedParse));
    assert_eq!(store.get_all_neos().len(), 0);
}

#[test]
fn normalize_one_approach() {
    let doc = Json::parse(&object("3542519", "designation", "(2010 PK9)", &[approach("2015-09-07", "\\\"abc\\\"")])).unwrap();
    let obj = object_from_json(&doc, "designation").unwrap();
    assert_eq!(obj.designation, "(2010 PK9)");
    assert_eq!(obj.close_approach_data[0].relative_velocity.miles_per_hour, "abc");
    assert_eq!(normalize(&obj, &obj.close_approach_data[0]).err(), Some(AppError::SerdeFailedParse));
}

#[test]
fn bad_approach_date_is_an_invalid_date() {
    let doc = Json::parse(&object("3542519", "designation", "x", &[approach("2015-02-30", "1.5")])).unwrap();
    let obj = object_from_json(&doc, "designation").unwrap();
    assert_eq!(normalize(&obj, &obj.close_approach_data[0]).err(), Some(AppError::InvalidDate));
}

#[test]
fn missing_member_is_a_parse_error() {
    let doc = Json::parse("{\"near_earth_objects\": {\"2015-09-07\": [{\"id\": \"1\"}]}}").unwrap();
    assert!(feed_from_json(&doc).is_none());
    let q = Query::ByExternalId { id: 1 };
    assert_eq!(fetch_records(&q, Some("{\"id\": \"1\"}")).err(), Some(AppError::SerdeFailedParse));
    assert_eq!(fetch_records(&q, Some("[")).err(), Some(AppError::SerdeFailedParse));
    assert_eq!(fetch_records(&q, None).err(), Some(AppError::RequestAPI));
}

#[test]
fn resolve_twice_gives_the_same_rows() {
    let mut store = Store::new();
    let b = parse_date("2015-09-07").unwrap();
    let e = parse_date("2015-09-08").unwrap();
    let q = Query::DateRange { begin: b, end: e };
    let feed = two_by_two_feed(false);
    let first = store.resolve(&q, Some(&feed)).unwrap();
    assert_eq!(first.len(), 8);
    assert_eq!(first[0].id, NeoId(1));
    assert_eq!(first[7].id, NeoId(8));
    let second = store.resolve(&q, None).unwrap();
    assert_eq!(second.len(), 8);
    for i in 0..8 {
        assert_eq!(first[i].id, second[i].id);
        assert_eq!(first[i].api_id, second[i].api_id);
        assert_eq!(first[i].velocity, second[i].velocity);
        assert_eq!(first[i].approach_date, second[i].approach_date);
    }
    assert_eq!(store.get_all_neos().len(), 8);
}

#[test]
fn cached_range_skips_the_feed() {
    let mut store = Store::new();
    store.add_neo(&create("2015-09-08")).unwrap();
    let b = parse_date("2015-09-07").unwrap();
    let e = parse_date("2015-09-10").unwrap();
    let q = Query::DateRange { begin: b, end: e };
    let rows = store.resolve(&q, None).unwrap();
    assert_eq!(rows.len(), 1);
    let rows = store.resolve(&q, Some("not even json")).unwrap();
    assert_eq!(rows.len(), 1);
    assert_eq!(rows[0].id, NeoId(1));
    assert_eq!(store.get_all_neos().len(), 1);
}

#[test]
fn miss_without_feed_is_a_request_error() {
    let mut store = Store::new();
    store.add_neo(&create("2015-09-08")).unwrap();
    let r = store.get_neo_by_date("2016-01-01", "2016-01-31", None);
    assert_eq!(r.err(), Some(AppError::RequestAPI));
}

#[test]
fn by_id_persists_one_row_per_approach() {
    let mut store = Store::new();
    let aps = vec![
        approach("2015-09-07", "40888.3"),
        approach("2016-03-01", "40001"),
        approach("2017-11-20", "39000.75"),
    ];
    let payload = object("3542519", "designation", "(2010 PK9)", &aps);
    let rows = store.get_neo_by_id(3542519, Some(&payload)).unwrap();
    assert_eq!(rows.len(), 3);
    let all = store.get_all_neos();
    assert_eq!(all.len(), 3);
    for r in &all {
        assert_eq!(r.api_id, 3542519);
        assert_eq!(r.designation, "(2010 PK9)");
    }
    let again = store.get_neo_by_id(NeoId(3542519), None).unwrap();
    assert_eq!(again.len(), 3);
    assert_eq!(again[2].approach_date, CalendarDate { year: 2017, month: 11, day: 20 });
}

#[test]
fn invalid_date_comes_first() {
    let mut store = Store::new();
    assert_eq!(store.get_neo_by_date("2015-9-7", "2015-09-08", None).err(), Some(AppError::InvalidDate));
    assert_eq!(store.get_neo_by_date("2015-09-07", "tomorrow", Some("{}")).err(), Some(AppError::InvalidDate));
    assert_eq!(store.get_all_neos().len(), 0);
}

#[test]
fn direct_creation() {
    let mut store = Store::new();
    let a = store.add_neo(&create("2015-09-08")).unwrap();
    let b = store.add_neo(&create("2015-09-09")).unwrap();
    assert_eq!(a.id, NeoId(1));
    assert_eq!(b.id, NeoId(2));
    assert_eq!(b.approach_date.to_iso_string(), "2015-09-09");
    assert_eq!(store.add_neo(&create("2015-09-31")).err(), Some(AppError::InvalidDate));
    let mut bad = create("2015-09-10");
    bad.velocity = "fast".to_string();
    assert_eq!(store.add_neo(&bad).err(), Some(AppError::SerdeFailedParse));
    assert_eq!(store.get_all_neos().len(), 2);
    let page = store.get_all_neo_pages();
    assert_eq!(page.neos.len(), 2);
    assert_eq!(page.neos[1].id, NeoId(2));
}

#[test]
fn lookups_filter_rows() {
    let mut store = Store::new();
    store.add_neo(&create("2015-09-08")).unwrap();
    store.add_neo(&create("2015-10-01")).unwrap();
    let b = parse_date("2015-09-01").unwrap();
    let e = parse_date("2015-09-30").unwrap();
    assert_eq!(store.lookup(&Query::DateRange { begin: b, end: e }).len(), 1);
    assert_eq!(store.lookup(&Query::ByExternalId { id: 2465633 }).len(), 2);
    assert_eq!(store.lookup(&Query::ByExternalId { id: 1 }).len(), 0);
}

#[test]
fn request_paths() {
    let b = parse_date("2015-09-07").unwrap();
    let e = parse_date("2015-09-08").unwrap();
    assert_eq!(
        Query::DateRange { begin: b, end: e }.request_path("DEMO_KEY"),
        "feed?start_date=2015-09-07&end_date=2015-09-08&api_key=DEMO_KEY"
    );
    assert_eq!(
        Query::ByExternalId { id: 3542519 }.request_path("K"),
        "neo/3542519?api_key=K"
    );
}

#[test]
fn error_statuses() {
    assert_eq!(AppError::Database.status_code(), 503);
    assert_eq!(AppError::InvalidDate.status_code(), 503);
    assert_eq!(AppError::RequestAPI.status_code(), 503);
    assert_eq!(AppError::SerdeFailedParse.status_code(), 503);
    assert_eq!(AppError::InvalidToken.status_code(), 401);
    assert_eq!(AppError::InternalServerError.status_code(), 500);
    assert_eq!(AppError::InvalidPassword.fixed_message(), Some("Invalid Password"));
    assert_eq!(AppError::Database.fixed_message(), None);
}

#[test]
fn request_bodies_to_queries() {
    let r = DateRange { begin_date: "2015-09-07".to_string(), end_date: "2015-09-08".to_string() };
    let q = r.query().unwrap();
    assert_eq!(
        q,
        Query::DateRange {
            begin: CalendarDate { year: 2015, month: 9, day: 7 },
            end: CalendarDate { year: 2015, month: 9, day: 8 },
        }
    );
    let bad = CreateDateRange { begin_date: "2015-09-07".to_string(), end_date: "09/08/2015".to_string() };
    assert_eq!(bad.query().err(), Some(AppError::InvalidDate));
    assert_eq!(GetNeoById { neo_id: 42 }.query(), Query::ByExternalId { id: 42 });
}

#[test]
fn cache_fill_steps() {
    let b = parse_date("2015-09-07").unwrap();
    let e = parse_date("2015-09-08").unwrap();
    let q = Query::DateRange { begin: b, end: e };
    let mut fill = CacheFill::start(q, "KEY");
    let path = match fill.on_lookup(Vec::new()) {
        Step::Fetch(p) => p,
        other => panic!("unexpected {:?}", other),
    };
    assert_eq!(path, "feed?start_date=2015-09-07&end_date=2015-09-08&api_key=KEY");
    let feed = two_by_two_feed(false);
    let mut step = fill.on_feed(Some(&feed));
    let mut next_id = 100;
    let answer = loop {
        step = match step {
            Step::Insert(mut rec) => {
                next_id += 1;
                rec.id = NeoId(next_id);
                fill.on_insert(Ok(rec))
            }
            Step::Done(rows) => break rows,
            other => panic!("unexpected {:?}", other),
        };
    };
    assert_eq!(answer.len(), 8);
    assert_eq!(answer[0].id, NeoId(101));
    assert_eq!(answer[7].id, NeoId(108));
}

#[test]
fn cache_fill_hit_and_failures() {
    let q = Query::ByExternalId { id: 7 };
    let mut store = Store::new();
    let row = store.add_neo(&create("2015-09-08")).unwrap();
    let mut fill = CacheFill::start(q, "KEY");
    match fill.on_lookup(vec![row]) {
        Step::Done(rows) => assert_eq!(rows.len(), 1),
        other => panic!("unexpected {:?}", other),
    }
    let mut fill = CacheFill::start(q, "KEY");
    assert!(matches!(fill.on_lookup(Vec::new()), Step::Fetch(p) if p == "neo/7?api_key=KEY"));
    assert!(matches!(fill.on_feed(None), Step::Fail(AppError::RequestAPI)));
    let mut fill = CacheFill::start(q, "KEY");
    fill.on_lookup(Vec::new());
    let payload = object("7", "designation", "x", &[approach("2015-09-07", "1.5"), approach("2015-09-09", "2")]);
    assert!(matches!(fill.on_feed(Some(&payload)), Step::Insert(_)));
    assert!(matches!(fill.on_insert(Err(AppError::Database)), Step::Fail(AppError::Database)));
}
