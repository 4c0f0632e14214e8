use std::collections::BTreeMap;

use cta_monitor::mapper::Statement;
use cta_monitor::model::gtfs::{Agency, Route, Stop};
use cta_monitor::task::load_gtfs::{insert_of, truncate_of, Action, Dataset, Loader};
use cta_monitor::task::plan::{insert_target, truncate_target, Entity, Outcome, Phase};
use cta_monitor::task::stop_order::{sort_stops, stop_before_eq};
use cta_monitor::value::Value;

fn stop(id: Option<&str>, parent: Option<&str>, name: &str) -> Stop {
    Stop {
        stop_id: id.map(|s| s.to_string()),
        stop_code: None,
        stop_name: name.to_string(),
        stop_desc: None,
        stop_lat: "41.0".to_string(),
        stop_lon: "-87.0".to_string(),
        location_type: 0,
        parent_station: parent.map(|s| s.to_string()),
        wheelchair_boarding: 1,
    }
}

fn agency(name: &str) -> Agency {
    Agency {
        agency_name: Some(name.to_string()),
        agency_url: "u".to_string(),
        agency_timezone: "tz".to_string(),
        agency_lang: "en".to_string(),
        agency_phone: "p".to_string(),
        agency_fare_url: "f".to_string(),
    }
}

fn route(id: &str) -> Route {
    Route {
        route_id: Some(id.to_string()),
        route_short_name: Some(id.to_string()),
        route_long_name: None,
        route_type: 3,
        route_url: None,
        route_color: None,
        route_text_color: None,
    }
}

fn empty() -> Dataset {
    Dataset {
        agencies: Vec::new(),
        routes: Vec::new(),
        stops: Vec::new(),
        calendars: Vec::new(),
        calendar_dates: Vec::new(),
        trips: Vec::new(),
        frequencies: Vec::new(),
        shapes: Vec::new(),
        stop_times: Vec::new(),
        transfers: Vec::new(),
    }
}

fn names(stops: &[Stop]) -> Vec<String> {
    stops.iter().map(|s| s.stop_name.clone()).collect()
}

fn show(v: &Value) -> String {
    match v {
        Value::Null => "null".to_string(),
        Value::Text(s) => format!("'{}'", s),
        Value::Small(n) => format!("{}u8", n),
        Value::Integer(n) => format!("{}", n),
    }
}

fn label(a: &Action) -> String {
    match a {
        Action::Begin => "begin".to_string(),
        Action::Execute(s) => {
            assert!(s.params.is_empty());
            s.text.clone()
        }
        Action::ExecuteBatch(b) => format!("{} x{}", b.text, b.rows.len()),
        Action::Commit => "commit".to_string(),
        Action::Abort(None) => "abort".to_string(),
        Action::Abort(Some(s)) => format!("abort after {}", s.text),
        Action::Finished => "finished".to_string(),
    }
}

/// A store that holds rows by table name, with one open transaction.
struct Store {
    committed: BTreeMap<String, Vec<Vec<String>>>,
    working: BTreeMap<String, Vec<Vec<String>>>,
}

impl Store {
    fn new() -> Store {
        Store { committed: BTreeMap::new(), working: BTreeMap::new() }
    }

    fn execute(&mut self, s: &Statement) {
        if let Some(table) = s.text.strip_prefix("TRUNCATE ") {
            self.working.insert(table.to_string(), Vec::new());
        } else {
            assert!(s.text.starts_with("SET FOREIGN_KEY_CHECKS = "));
        }
    }

    fn perform(&mut self, a: &Action) {
        match a {
            Action::Begin => self.working = self.committed.clone(),
            Action::Execute(s) => self.execute(s),
            Action::ExecuteBatch(b) => {
                let rest = b.text.strip_prefix("INSERT INTO ").unwrap();
                let table = rest.split(' ').next().unwrap().to_string();
                let rows = self.working.entry(table).or_default();
                for r in &b.rows {
                    rows.push(r.iter().map(show).collect());
                }
            }
            Action::Commit => self.committed = self.working.clone(),
            Action::Abort(restore) => {
                if let Some(s) = restore {
                    self.execute(s);
                }
                self.working = self.committed.clone();
            }
            Action::Finished => {}
        }
    }

    fn count(&self, table: &str) -> usize {
        self.committed.get(table).map(|r| r.len()).unwrap_or(0)
    }
}

/// Runs a load to its end; the step with the number `fail_at` fails.
fn run(store: &mut Store, data: Dataset, fail_at: Option<usize>) -> (Phase, Vec<String>) {
    let mut loader = Loader::new(data);
    let mut action = loader.pending();
    let mut log = Vec::new();
    let mut n = 0;
    while !matches!(action, Action::Finished) {
        log.push(label(&action));
        let closing = matches!(action, Action::Abort(_));
        if fail_at == Some(n) && !closing {
            action = loader.step(Outcome::Failed);
        } else {
            store.perform(&action);
            action = loader.step(Outcome::Succeeded);
        }
        n += 1;
        if closing {
            break;
        }
    }
    (loader.phase(), log)
}

const TRUNCATED: [&str; 10] = [
    "TRANSFER", "FREQUENCY", "STOP_TIME", "TRIP", "CALENDAR_DATE", "CALENDAR", "ROUTE", "STOP",
    "SHAPE", "AGENCY",
];

const INSERTED: [&str; 10] = [
    "AGENCY", "SHAPE", "STOP", "ROUTE", "CALENDAR", "CALENDAR_DATE", "TRIP", "STOP_TIME",
    "FREQUENCY", "TRANSFER",
];

#[test]
fn stops_compare_by_parent_presence_then_identifier() {
    let a = stop(Some("40380"), None, "station");
    let b = stop(Some("30162"), Some("40380"), "platform");
    assert!(stop_before_eq(&a, &b));
    assert!(!stop_before_eq(&b, &a));
    let c = stop(Some("30163"), Some("10000"), "other platform");
    assert!(stop_before_eq(&b, &c));
    assert!(!stop_before_eq(&c, &b));
    let d = stop(None, None, "no id");
    assert!(stop_before_eq(&d, &a));
    assert!(!stop_before_eq(&a, &d));
    assert!(stop_before_eq(&d, &d));
    assert!(stop_before_eq(&a, &a));
}

#[test]
fn a_station_is_sorted_before_its_platform() {
    for flipped in [false, true] {
        let a = stop(Some("40380"), None, "A");
        let b = stop(Some("30162"), Some("40380"), "B");
        let mut stops = if flipped { vec![b, a] } else { vec![a, b] };
        sort_stops(&mut stops);
        assert_eq!(names(&stops), vec!["A", "B"]);
    }
}

#[test]
fn sort_orders_by_presence_then_identifier_and_is_stable() {
    let mut stops = vec![
        stop(Some("5"), Some("1"), "child 5"),
        stop(Some("3"), None, "root 3"),
        stop(Some("2"), Some("9"), "child 2"),
        stop(None, None, "root none"),
        stop(Some("3"), None, "root 3 again"),
        stop(Some("1"), None, "root 1"),
        stop(Some("2"), Some("0"), "child 2 again"),
        stop(None, Some("1"), "child none"),
    ];
    sort_stops(&mut stops);
    assert_eq!(
        names(&stops),
        vec!["root none", "root 1", "root 3", "root 3 again", "child none", "child 2", "child 2 again", "child 5"]
    );
    let mut none: Vec<Stop> = Vec::new();
    sort_stops(&mut none);
    assert!(none.is_empty());
    let mut one = vec![stop(Some("1"), Some("2"), "only")];
    sort_stops(&mut one);
    assert_eq!(names(&one), vec!["only"]);
}

#[test]
fn the_two_orders() {
    let t: Vec<Entity> = (0..10).map(truncate_target).collect();
    assert_eq!(
        t,
        vec![
            Entity::Transfer,
            Entity::Frequency,
            Entity::StopTime,
            Entity::Trip,
            Entity::CalendarDate,
            Entity::Calendar,
            Entity::Route,
            Entity::Stop,
            Entity::Shape,
            Entity::Agency
        ]
    );
    let i: Vec<Entity> = (0..10).map(insert_target).collect();
    assert_eq!(
        i,
        vec![
            Entity::Agency,
            Entity::Shape,
            Entity::Stop,
            Entity::Route,
            Entity::Calendar,
            Entity::CalendarDate,
            Entity::Trip,
            Entity::StopTime,
            Entity::Frequency,
            Entity::Transfer
        ]
    );
    for k in 0..10 {
        assert_eq!(truncate_of(truncate_target(k)).text, format!("TRUNCATE {}", TRUNCATED[k]));
        assert!(insert_of(insert_target(k), &empty())
            .text
            .starts_with(&format!("INSERT INTO {} (", INSERTED[k])));
    }
}

#[test]
fn a_load_takes_its_steps_in_order() {
    let mut data = empty();
    data.agencies.push(agency("CTA"));
    data.routes.push(route("1"));
    data.routes.push(route("2"));
    let mut store = Store::new();
    let (phase, log) = run(&mut store, data, None);
    assert_eq!(phase, Phase::Committed);
    assert_eq!(log.len(), 24);
    assert_eq!(log[0], "begin");
    assert_eq!(log[1], "SET FOREIGN_KEY_CHECKS = 0");
    for k in 0..10 {
        assert_eq!(log[2 + k], format!("TRUNCATE {}", TRUNCATED[k]));
    }
    assert_eq!(log[12], "SET FOREIGN_KEY_CHECKS = 1");
    for k in 0..10 {
        assert!(log[13 + k].starts_with(&format!("INSERT INTO {} (", INSERTED[k])), "{}", log[13 + k]);
    }
    assert!(log[13].ends_with(" x1"));
    assert!(log[14].ends_with(" x0"));
    assert!(log[16].ends_with(" x2"));
    assert_eq!(log[23], "commit");
}

#[test]
fn phases_follow_one_another() {
    let mut loader = Loader::new(empty());
    let mut seen = vec![loader.phase()];
    for _ in 0..24 {
        loader.step(Outcome::Succeeded);
        seen.push(loader.phase());
    }
    assert_eq!(seen[0], Phase::Idle);
    assert_eq!(seen[1], Phase::TransactionOpen);
    assert_eq!(seen[2], Phase::ChecksSuspended);
    for k in 1..=10 {
        assert_eq!(seen[2 + k], Phase::Truncating { done: k });
    }
    assert_eq!(seen[13], Phase::ChecksResumed);
    for k in 1..=10 {
        assert_eq!(seen[13 + k], Phase::Inserting { done: k });
    }
    assert_eq!(seen[24], Phase::Committed);
    assert!(matches!(loader.step(Outcome::Succeeded), Action::Finished));
    assert_eq!(loader.phase(), Phase::Committed);
    assert!(matches!(loader.step(Outcome::Failed), Action::Finished));
    assert_eq!(loader.phase(), Phase::Committed);
    assert!(matches!(loader.pending(), Action::Finished));
}

#[test]
fn the_first_failure_aborts_the_load() {
    for k in 0..24 {
        let mut loader = Loader::new(empty());
        for _ in 0..k {
            loader.step(Outcome::Succeeded);
        }
        let action = loader.step(Outcome::Failed);
        assert_eq!(loader.phase(), Phase::Aborted);
        let expected = if k == 0 {
            "finished"
        } else if (2..=12).contains(&k) {
            "abort after SET FOREIGN_KEY_CHECKS = 1"
        } else {
            "abort"
        };
        assert_eq!(label(&action), expected, "failure of step {}", k);
        assert!(matches!(loader.step(Outcome::Succeeded), Action::Finished));
        assert_eq!(loader.phase(), Phase::Aborted);
        assert!(matches!(loader.step(Outcome::Failed), Action::Finished));
        assert_eq!(loader.phase(), Phase::Aborted);
    }
}

#[test]
fn loading_twice_does_not_accumulate() {
    let mut store = Store::new();
    for _ in 0..2 {
        let mut data = empty();
        data.agencies.push(agency("CTA"));
        data.routes.push(route("1"));
        let (phase, _) = run(&mut store, data, None);
        assert_eq!(phase, Phase::Committed);
        assert_eq!(store.count("AGENCY"), 1);
        assert_eq!(store.count("ROUTE"), 1);
        assert_eq!(store.count("STOP"), 0);
        assert_eq!(store.committed["AGENCY"][0][0], "'CTA'");
        assert_eq!(store.committed["ROUTE"][0][0], "'1'");
    }
}

#[test]
fn a_failed_load_leaves_the_store_as_it_was() {
    let mut store = Store::new();
    let mut first = empty();
    first.agencies.push(agency("CTA"));
    first.routes.push(route("1"));
    first.stops.push(stop(Some("1"), None, "s"));
    run(&mut store, first, None);
    let before = store.committed.clone();
    for k in 0..24 {
        let mut second = empty();
        second.agencies.push(agency("Pace"));
        second.agencies.push(agency("Metra"));
        let (phase, log) = run(&mut store, second, Some(k));
        assert_eq!(phase, Phase::Aborted);
        assert_eq!(log.len(), if k == 0 { 1 } else { k + 2 });
        assert_eq!(store.committed, before, "failure of step {}", k);
        assert_eq!(store.count("AGENCY"), 1);
        assert_eq!(store.count("ROUTE"), 1);
        assert_eq!(store.count("STOP"), 1);
    }
}

#[test]
fn a_load_stores_a_station_before_its_platform() {
    for flipped in [false, true] {
        let a = stop(Some("40380"), None, "A");
        let b = stop(Some("30162"), Some("40380"), "B");
        let mut data = empty();
        data.stops = if flipped { vec![b, a] } else { vec![a, b] };
        let loader = Loader::new(data);
        assert_eq!(names(&loader.data().stops), vec!["A", "B"]);
        let mut store = Store::new();
        let mut data = empty();
        data.stops = vec![
            stop(Some("30162"), Some("40380"), "B"),
            stop(Some("40380"), None, "A"),
        ];
        if flipped {
            data.stops.reverse();
        }
        let (phase, _) = run(&mut store, data, None);
        assert_eq!(phase, Phase::Committed);
        let rows = &store.committed["STOP"];
        assert_eq!(rows.len(), 2);
        assert_eq!(rows[0][0], "'40380'");
        assert_eq!(rows[0][7], "null");
        assert_eq!(rows[1][0], "'30162'");
        assert_eq!(rows[1][7], rows[0][0]);
    }
}

#[test]
fn truncating_twice_leaves_no_rows() {
    let mut store = Store::new();
    let mut data = empty();
    data.stops.push(stop(Some("1"), None, "s"));
    run(&mut store, data, None);
    assert_eq!(store.count("STOP"), 1);
    store.perform(&Action::Begin);
    for _ in 0..2 {
        store.perform(&Action::Execute(truncate_of(Entity::Stop)));
        assert!(store.working["STOP"].is_empty());
    }
}
