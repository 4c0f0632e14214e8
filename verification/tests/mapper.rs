use cta_monitor::descriptor::{DescriptorError, EntityDescriptor, FieldKind, FieldSpec};
use cta_monitor::mapper::{
    fetch_all, insert_all, save_check, save_write, truncate, RecordError, Statement,
};
use cta_monitor::model::gtfs::{Agency, CalendarDate, Shape, Stop, StopTime, Trip};
use cta_monitor::statement::{
    conditions_at, count_statement, field_names, insert_statement, placeholders,
    select_statement, truncate_statement, update_statement,
};
use cta_monitor::text::join;
use cta_monitor::util::Record;
use cta_monitor::value::Value;

fn agency(name: Option<&str>) -> Agency {
    Agency {
        agency_name: name.map(|n| n.to_string()),
        agency_url: "http://transitchicago.com".to_string(),
        agency_timezone: "America/Chicago".to_string(),
        agency_lang: "en".to_string(),
        agency_phone: "1-888-YOURCTA".to_string(),
        agency_fare_url: "http://www.transitchicago.com/fares".to_string(),
    }
}

fn trip(id: Option<&str>) -> Trip {
    Trip {
        route_id: "22".to_string(),
        service_id: "65001".to_string(),
        trip_id: id.map(|n| n.to_string()),
        direction_id: Some(1),
        block_id: None,
        shape_id: Some("sh1".to_string()),
        wheelchair_accessible: None,
        schd_trip_id: Some("t9".to_string()),
    }
}

fn show(v: &Value) -> String {
    match v {
        Value::Null => "null".to_string(),
        Value::Text(s) => format!("'{}'", s),
        Value::Small(n) => format!("{}u8", n),
        Value::Integer(n) => format!("{}", n),
    }
}

fn shown(values: &[Value]) -> Vec<String> {
    values.iter().map(show).collect()
}

fn pair(s: &Statement) -> (String, Vec<String>) {
    (s.text.clone(), shown(&s.params))
}

#[test]
fn table_names_are_upper_snake_case() {
    let key = || vec![FieldSpec::new("id", FieldKind::Text, true, true)];
    for (entity, table) in [
        ("Agency", "AGENCY"),
        ("CalendarDate", "CALENDAR_DATE"),
        ("StopTime", "STOP_TIME"),
        ("stop", "STOP"),
        ("XMLFeed", "XML_FEED"),
    ] {
        assert_eq!(EntityDescriptor::for_entity(entity, key()).unwrap().table(), table);
    }
    assert_eq!(Agency::descriptor().table(), "AGENCY");
    assert_eq!(StopTime::descriptor().table(), "STOP_TIME");
}

#[test]
fn descriptor_without_primary_field_is_refused() {
    let fields = vec![
        FieldSpec::new("a", FieldKind::Text, false, false),
        FieldSpec::new("b", FieldKind::Small, true, false),
    ];
    assert!(matches!(
        EntityDescriptor::new("T".to_string(), fields),
        Err(DescriptorError::MissingPrimaryField)
    ));
    assert!(matches!(
        EntityDescriptor::for_entity("Thing", Vec::new()),
        Err(DescriptorError::MissingPrimaryField)
    ));
}

#[test]
fn descriptor_keeps_table_and_field_order() {
    let fields = vec![
        FieldSpec::new("x", FieldKind::Integer, false, false),
        FieldSpec::new("id", FieldKind::Text, true, true),
    ];
    let d = EntityDescriptor::new("things".to_string(), fields).unwrap();
    assert_eq!(d.table(), "things");
    let names: Vec<&str> = d.fields().iter().map(|f| f.name.as_str()).collect();
    assert_eq!(names, vec!["x", "id"]);
    assert!(d.fields()[1].primary);
    assert!(!d.fields()[0].primary);
    assert_eq!(d.fields()[0].kind, FieldKind::Integer);
}

#[test]
fn join_puts_the_separator_between_neighbours() {
    let none: Vec<String> = Vec::new();
    assert_eq!(join(&none, ", "), "");
    assert_eq!(join(&vec!["a".to_string()], ", "), "a");
    assert_eq!(join(&vec!["a".to_string(), "b".to_string(), "c".to_string()], " AND "), "a AND b AND c");
    assert_eq!(join(&vec!["".to_string(), "".to_string()], "-"), "-");
}

#[test]
fn statement_pieces() {
    let d = CalendarDate::descriptor();
    assert_eq!(field_names(d.fields()), vec!["service_id", "date", "exception_type"]);
    assert_eq!(placeholders(3), vec!["?", "?", "?"]);
    assert!(placeholders(0).is_empty());
    assert_eq!(conditions_at(d.fields(), &vec![2, 0]), vec!["exception_type = ?", "service_id = ?"]);
}

#[test]
fn statements_of_a_single_key_table() {
    let d = Agency::descriptor();
    assert_eq!(select_statement(&d), "SELECT * FROM AGENCY");
    assert_eq!(count_statement(&d), "SELECT COUNT(*) FROM AGENCY WHERE agency_name = ?");
    assert_eq!(
        insert_statement(&d),
        "INSERT INTO AGENCY (agency_name, agency_url, agency_timezone, agency_lang, agency_phone, agency_fare_url) VALUES (?, ?, ?, ?, ?, ?)"
    );
    assert_eq!(
        update_statement(&d),
        "UPDATE AGENCY SET agency_url = ?, agency_timezone = ?, agency_lang = ?, agency_phone = ?, agency_fare_url = ? WHERE agency_name = ?"
    );
    assert_eq!(truncate_statement(&d), "TRUNCATE AGENCY");
}

#[test]
fn statements_of_a_two_key_table() {
    let d = CalendarDate::descriptor();
    assert_eq!(
        count_statement(&d),
        "SELECT COUNT(*) FROM CALENDAR_DATE WHERE service_id = ? AND date = ?"
    );
    assert_eq!(
        insert_statement(&d),
        "INSERT INTO CALENDAR_DATE (service_id, date, exception_type) VALUES (?, ?, ?)"
    );
    assert_eq!(
        update_statement(&d),
        "UPDATE CALENDAR_DATE SET exception_type = ? WHERE service_id = ? AND date = ?"
    );
}

#[test]
fn statements_of_a_table_with_separated_keys() {
    let d = Shape::descriptor();
    assert_eq!(
        count_statement(&d),
        "SELECT COUNT(*) FROM SHAPE WHERE shape_id = ? AND shape_pt_sequence = ?"
    );
    assert_eq!(
        update_statement(&d),
        "UPDATE SHAPE SET shape_pt_lat = ?, shape_pt_lon = ?, shape_dist_traveled = ? WHERE shape_id = ? AND shape_pt_sequence = ?"
    );
}

#[test]
fn statements_when_every_field_is_a_key() {
    let fields = vec![
        FieldSpec::new("a", FieldKind::Text, true, true),
        FieldSpec::new("b", FieldKind::Text, true, true),
    ];
    let d = EntityDescriptor::new("PAIR".to_string(), fields).unwrap();
    assert_eq!(update_statement(&d), "UPDATE PAIR SET  WHERE a = ? AND b = ?");
    assert_eq!(insert_statement(&d), "INSERT INTO PAIR (a, b) VALUES (?, ?)");
}

#[test]
fn all_selects_every_row() {
    let q = Agency::all();
    assert_eq!(pair(&q), ("SELECT * FROM AGENCY".to_string(), Vec::<String>::new()));
    assert_eq!(CalendarDate::all().text, "SELECT * FROM CALENDAR_DATE");
    assert_eq!(fetch_all(&Stop::descriptor()).text, "SELECT * FROM STOP");
}

#[test]
fn destroy_all_truncates() {
    let c = Stop::destroy_all();
    assert_eq!(pair(&c), ("TRUNCATE STOP".to_string(), Vec::<String>::new()));
    assert_eq!(truncate(&Trip::descriptor()).text, "TRUNCATE TRIP");
}

#[test]
fn save_without_key_is_a_contract_violation() {
    let a = agency(None);
    assert!(matches!(a.save(), Err(RecordError::ContractViolation)));
    assert!(matches!(a.save_after(0), Err(RecordError::ContractViolation)));
    assert!(matches!(a.save_after(3), Err(RecordError::ContractViolation)));
}

#[test]
fn save_with_one_of_two_keys_missing_is_a_contract_violation() {
    let both = CalendarDate {
        service_id: Some("s".to_string()),
        date: Some("20240101".to_string()),
        exception_type: 1,
    };
    assert!(both.save().is_ok());
    let first = CalendarDate { service_id: Some("s".to_string()), date: None, exception_type: 1 };
    let second = CalendarDate { service_id: None, date: Some("d".to_string()), exception_type: 1 };
    let neither = CalendarDate { service_id: None, date: None, exception_type: 1 };
    for r in [first, second, neither] {
        assert!(matches!(r.save(), Err(RecordError::ContractViolation)));
        assert!(matches!(r.save_after(0), Err(RecordError::ContractViolation)));
        assert!(matches!(r.save_after(1), Err(RecordError::ContractViolation)));
    }
}

#[test]
fn save_checks_existence_by_key() {
    let q = agency(Some("CTA")).save().unwrap();
    assert_eq!(
        pair(&q),
        (
            "SELECT COUNT(*) FROM AGENCY WHERE agency_name = ?".to_string(),
            vec!["'CTA'".to_string()]
        )
    );
    let q = trip(Some("t1")).save().unwrap();
    assert_eq!(
        pair(&q),
        ("SELECT COUNT(*) FROM TRIP WHERE trip_id = ?".to_string(), vec!["'t1'".to_string()])
    );
}

#[test]
fn save_inserts_when_no_row_has_the_key() {
    let w = trip(Some("t1")).save_after(0).unwrap();
    assert_eq!(
        w.text,
        "INSERT INTO TRIP (route_id, service_id, trip_id, direction_id, block_id, shape_id, wheelchair_accessible, schd_trip_id) VALUES (?, ?, ?, ?, ?, ?, ?, ?)"
    );
    assert_eq!(
        shown(&w.params),
        vec!["'22'", "'65001'", "'t1'", "1u8", "null", "'sh1'", "null", "'t9'"]
    );
}

#[test]
fn save_updates_when_a_row_has_the_key() {
    for count in [1usize, 2, 1000] {
        let w = trip(Some("t1")).save_after(count).unwrap();
        assert_eq!(
            w.text,
            "UPDATE TRIP SET route_id = ?, service_id = ?, direction_id = ?, block_id = ?, shape_id = ?, wheelchair_accessible = ?, schd_trip_id = ? WHERE trip_id = ?"
        );
        assert_eq!(
            shown(&w.params),
            vec!["'22'", "'65001'", "1u8", "null", "'sh1'", "null", "'t9'", "'t1'"]
        );
    }
}

#[test]
fn update_parameters_put_separated_keys_last() {
    let s = StopTime {
        trip_id: Some("t".to_string()),
        arrival_time: Some("08:00:00".to_string()),
        departure_time: None,
        stop_id: "30".to_string(),
        stop_sequence: Some(4),
        stop_headsign: None,
        pickup_type: Some(0),
        shape_dist_traveled: Some(1200),
    };
    let w = s.save_after(1).unwrap();
    assert_eq!(
        w.text,
        "UPDATE STOP_TIME SET arrival_time = ?, departure_time = ?, stop_id = ?, stop_headsign = ?, pickup_type = ?, shape_dist_traveled = ? WHERE trip_id = ? AND stop_sequence = ?"
    );
    assert_eq!(
        shown(&w.params),
        vec!["'08:00:00'", "null", "'30'", "null", "0u8", "1200", "'t'", "4"]
    );
    let q = s.save().unwrap();
    assert_eq!(shown(&q.params), vec!["'t'", "4"]);
}

#[test]
fn row_level_save_follows_the_descriptor() {
    let d = CalendarDate::descriptor();
    let row = vec![Value::Text("s".to_string()), Value::Text("d".to_string()), Value::Small(2)];
    assert_eq!(shown(&save_check(&d, &row).unwrap().params), vec!["'s'", "'d'"]);
    assert_eq!(shown(&save_write(&d, &row, 0).unwrap().params), vec!["'s'", "'d'", "2u8"]);
    assert_eq!(shown(&save_write(&d, &row, 5).unwrap().params), vec!["2u8", "'s'", "'d'"]);
    let keyless = vec![Value::Text("s".to_string()), Value::Null, Value::Small(2)];
    assert!(matches!(save_check(&d, &keyless), Err(RecordError::ContractViolation)));
    assert!(matches!(save_write(&d, &keyless, 0), Err(RecordError::ContractViolation)));
}

#[test]
fn save_all_is_one_batch_of_inserts_in_order() {
    let items = vec![agency(Some("CTA")), agency(None), agency(Some("Pace"))];
    let b = Agency::save_all(&items);
    assert_eq!(
        b.text,
        "INSERT INTO AGENCY (agency_name, agency_url, agency_timezone, agency_lang, agency_phone, agency_fare_url) VALUES (?, ?, ?, ?, ?, ?)"
    );
    assert_eq!(b.rows.len(), 3);
    assert_eq!(show(&b.rows[0][0]), "'CTA'");
    assert_eq!(show(&b.rows[1][0]), "null");
    assert_eq!(show(&b.rows[2][0]), "'Pace'");
    assert_eq!(show(&b.rows[2][5]), "'http://www.transitchicago.com/fares'");
    let none: Vec<Agency> = Vec::new();
    assert!(Agency::save_all(&none).rows.is_empty());
    let raw = insert_all(&Agency::descriptor(), vec![vec![Value::Null]]);
    assert_eq!(raw.rows.len(), 1);
}
