//! The ten record types of a transit feed, each with its table, its fields
//! in order and its primary key.

use crate::descriptor::{
    fields_view, has_primary, DescriptorView, EntityDescriptor, FieldKind, FieldSpec,
    FieldSpecView,
};
use crate::naming::upper_snake_case;
use crate::util::record::{conforms, fits, Record};
use crate::value::{
    as_integer, as_opt_integer, as_opt_small, as_opt_text, as_small, as_text, opt_integer,
    opt_integer_view, opt_small, opt_small_view, opt_text, opt_text_view, row_view, text, Value,
    ValueView,
};
use vstd::pervasive::unreached;
use vstd::prelude::*;

verus! {

/// A primary-key field: optional, so that a record may not yet have it.
pub open spec fn key(name: Seq<char>, kind: FieldKind) -> FieldSpecView {
    FieldSpecView { name, kind, optional: true, primary: true }
}

/// A field outside the primary key that always has a value.
pub open spec fn column(name: Seq<char>, kind: FieldKind) -> FieldSpecView {
    FieldSpecView { name, kind, optional: false, primary: false }
}

/// A field outside the primary key that may have no value.
pub open spec fn optional(name: Seq<char>, kind: FieldKind) -> FieldSpecView {
    FieldSpecView { name, kind, optional: true, primary: false }
}

fn key_field(name: &str, kind: FieldKind) -> (f: FieldSpec)
    ensures
        f@ == key(name@, kind),
{
    FieldSpec::new(name, kind, true, true)
}

fn column_field(name: &str, kind: FieldKind) -> (f: FieldSpec)
    ensures
        f@ == column(name@, kind),
{
    FieldSpec::new(name, kind, false, false)
}

fn optional_field(name: &str, kind: FieldKind) -> (f: FieldSpec)
    ensures
        f@ == optional(name@, kind),
{
    FieldSpec::new(name, kind, true, false)
}

fn describe(entity: &str, fields: Vec<FieldSpec>) -> (d: EntityDescriptor)
    requires
        has_primary(fields_view(fields@)),
    ensures
        d@ == (DescriptorView { table: upper_snake_case(entity@), fields: fields_view(fields@) }),
{
    match EntityDescriptor::for_entity(entity, fields) {
        Ok(d) => d,
        Err(_) => unreached(),
    }
}

/// In a conforming row, each value fits the field at its position.
proof fn lemma_conforming_row(fields: Seq<FieldSpecView>, row: Seq<Value>)
    requires
        row.len() == fields.len(),
    ensures
        forall|i: int| 0 <= i < row.len() ==> #[trigger] row_view(row)[i] == row[i]@,
        conforms(fields, row_view(row)) ==> forall|i: int|
            0 <= i < row.len() ==> fits(fields[i], #[trigger] row[i]@),
{
    assert forall|i: int| 0 <= i < row.len() && conforms(fields, row_view(row)) implies fits(
        fields[i],
        #[trigger] row[i]@,
    ) by {
        assert(fits(fields[i], row_view(row)[i]));
    }
}

/// A transit agency.
#[derive(Debug)]
pub struct Agency {
    pub agency_name: Option<String>,
    pub agency_url: String,
    pub agency_timezone: String,
    pub agency_lang: String,
    pub agency_phone: String,
    pub agency_fare_url: String,
}

impl Record for Agency {
    open spec fn shape() -> DescriptorView {
        DescriptorView {
            table: upper_snake_case("Agency"@),
            fields: seq![
                key("agency_name"@, FieldKind::Text),
                column("agency_url"@, FieldKind::Text),
                column("agency_timezone"@, FieldKind::Text),
                column("agency_lang"@, FieldKind::Text),
                column("agency_phone"@, FieldKind::Text),
                column("agency_fare_url"@, FieldKind::Text),
            ],
        }
    }

    open spec fn row(&self) -> Seq<ValueView> {
        seq![
            opt_text_view(self.agency_name),
            ValueView::Text(self.agency_url@),
            ValueView::Text(self.agency_timezone@),
            ValueView::Text(self.agency_lang@),
            ValueView::Text(self.agency_phone@),
            ValueView::Text(self.agency_fare_url@),
        ]
    }

    proof fn lemma_row_conforms(&self) {
    }

    fn descriptor() -> (d: EntityDescriptor) {
        let mut fields: Vec<FieldSpec> = Vec::new();
        fields.push(key_field("agency_name", FieldKind::Text));
        fields.push(column_field("agency_url", FieldKind::Text));
        fields.push(column_field("agency_timezone", FieldKind::Text));
        fields.push(column_field("agency_lang", FieldKind::Text));
        fields.push(column_field("agency_phone", FieldKind::Text));
        fields.push(column_field("agency_fare_url", FieldKind::Text));
        proof {
            assert(fields_view(fields@) =~= Self::shape().fields);
            assert(fields_view(fields@)[0].primary);
        }
        describe("Agency", fields)
    }

    fn to_row(&self) -> (row: Vec<Value>) {
        let mut row: Vec<Value> = Vec::new();
        row.push(opt_text(&self.agency_name));
        row.push(text(&self.agency_url));
        row.push(text(&self.agency_timezone));
        row.push(text(&self.agency_lang));
        row.push(text(&self.agency_phone));
        row.push(text(&self.agency_fare_url));
        proof {
            assert(row_view(row@) =~= self.row());
        }
        row
    }

    fn from_row(row: &Vec<Value>) -> (made: Option<Self>) {
        if row.len() != 6 {
            return None;
        }
        proof {
            lemma_conforming_row(Self::shape().fields, row@);
        }
        let made = Agency {
            agency_name: as_opt_text(&row[0])?,
            agency_url: as_text(&row[1])?,
            agency_timezone: as_text(&row[2])?,
            agency_lang: as_text(&row[3])?,
            agency_phone: as_text(&row[4])?,
            agency_fare_url: as_text(&row[5])?,
        };
        proof {
            assert(made.row() =~= row_view(row@));
        }
        Some(made)
    }
}

/// A route that vehicles run on.
#[derive(Debug)]
pub struct Route {
    pub route_id: Option<String>,
    pub route_short_name: Option<String>,
    pub route_long_name: Option<String>,
    pub route_type: u8,
    pub route_url: Option<String>,
    pub route_color: Option<String>,
    pub route_text_color: Option<String>,
}

impl Record for Route {
    open spec fn shape() -> DescriptorView {
        DescriptorView {
            table: upper_snake_case("Route"@),
            fields: seq![
                key("route_id"@, FieldKind::Text),
                optional("route_short_name"@, FieldKind::Text),
                optional("route_long_name"@, FieldKind::Text),
                column("route_type"@, FieldKind::Small),
                optional("route_url"@, FieldKind::Text),
                optional("route_color"@, FieldKind::Text),
                optional("route_text_color"@, FieldKind::Text),
            ],
        }
    }

    open spec fn row(&self) -> Seq<ValueView> {
        seq![
            opt_text_view(self.route_id),
            opt_text_view(self.route_short_name),
            opt_text_view(self.route_long_name),
            ValueView::Small(self.route_type),
            opt_text_view(self.route_url),
            opt_text_view(self.route_color),
            opt_text_view(self.route_text_color),
        ]
    }

    proof fn lemma_row_conforms(&self) {
    }

    fn descriptor() -> (d: EntityDescriptor) {
        let mut fields: Vec<FieldSpec> = Vec::new();
        fields.push(key_field("route_id", FieldKind::Text));
        fields.push(optional_field("route_short_name", FieldKind::Text));
        fields.push(optional_field("route_long_name", FieldKind::Text));
        fields.push(column_field("route_type", FieldKind::Small));
        fields.push(optional_field("route_url", FieldKind::Text));
        fields.push(optional_field("route_color", FieldKind::Text));
        fields.push(optional_field("route_text_color", FieldKind::Text));
        proof {
            assert(fields_view(fields@) =~= Self::shape().fields);
            assert(fields_view(fields@)[0].primary);
        }
        describe("Route", fields)
    }

    fn to_row(&self) -> (row: Vec<Value>) {
        let mut row: Vec<Value> = Vec::new();
        row.push(opt_text(&self.route_id));
        row.push(opt_text(&self.route_short_name));
        row.push(opt_text(&self.route_long_name));
        row.push(Value::Small(self.route_type));
        row.push(opt_text(&self.route_url));
        row.push(opt_text(&self.route_color));
        row.push(opt_text(&self.route_text_color));
        proof {
            assert(row_view(row@) =~= self.row());
        }
        row
    }

    fn from_row(row: &Vec<Value>) -> (made: Option<Self>) {
        if row.len() != 7 {
            return None;
        }
        proof {
            lemma_conforming_row(Self::shape().fields, row@);
        }
        let made = Route {
            route_id: as_opt_text(&row[0])?,
            route_short_name: as_opt_text(&row[1])?,
            route_long_name: as_opt_text(&row[2])?,
            route_type: as_small(&row[3])?,
            route_url: as_opt_text(&row[4])?,
            route_color: as_opt_text(&row[5])?,
            route_text_color: as_opt_text(&row[6])?,
        };
        proof {
            assert(made.row() =~= row_view(row@));
        }
        Some(made)
    }
}

/// A place where vehicles stop, or the station that holds it.
#[derive(Debug)]
pub struct Stop {
    pub stop_id: Option<String>,
    pub stop_code: Option<String>,
    pub stop_name: String,
    pub stop_desc: Option<String>,
    pub stop_lat: String,
    pub stop_lon: String,
    pub location_type: u8,
    pub parent_station: Option<String>,
    pub wheelchair_boarding: u8,
}

impl Record for Stop {
    open spec fn shape() -> DescriptorView {
        DescriptorView {
            table: upper_snake_case("Stop"@),
            fields: seq![
                key("stop_id"@, FieldKind::Text),
                optional("stop_code"@, FieldKind::Text),
                column("stop_name"@, FieldKind::Text),
                optional("stop_desc"@, FieldKind::Text),
                column("stop_lat"@, FieldKind::Text),
                column("stop_lon"@, FieldKind::Text),
                column("location_type"@, FieldKind::Small),
                optional("parent_station"@, FieldKind::Text),
                column("wheelchair_boarding"@, FieldKind::Small),
            ],
        }
    }

    open spec fn row(&self) -> Seq<ValueView> {
        seq![
            opt_text_view(self.stop_id),
            opt_text_view(self.stop_code),
            ValueView::Text(self.stop_name@),
            opt_text_view(self.stop_desc),
            ValueView::Text(self.stop_lat@),
            ValueView::Text(self.stop_lon@),
            ValueView::Small(self.location_type),
            opt_text_view(self.parent_station),
            ValueView::Small(self.wheelchair_boarding),
        ]
    }

    proof fn lemma_row_conforms(&self) {
    }

    fn descriptor() -> (d: EntityDescriptor) {
        let mut fields: Vec<FieldSpec> = Vec::new();
        fields.push(key_field("stop_id", FieldKind::Text));
        fields.push(optional_field("stop_code", FieldKind::Text));
        fields.push(column_field("stop_name", FieldKind::Text));
        fields.push(optional_field("stop_desc", FieldKind::Text));
        fields.push(column_field("stop_lat", FieldKind::Text));
        fields.push(column_field("stop_lon", FieldKind::Text));
        fields.push(column_field("location_type", FieldKind::Small));
        fields.push(optional_field("parent_station", FieldKind::Text));
        fields.push(column_field("wheelchair_boarding", FieldKind::Small));
        proof {
            assert(fields_view(fields@) =~= Self::shape().fields);
            assert(fields_view(fields@)[0].primary);
        }
        describe("Stop", fields)
    }

    fn to_row(&self) -> (row: Vec<Value>) {
        let mut row: Vec<Value> = Vec::new();
        row.push(opt_text(&self.stop_id));
        row.push(opt_text(&self.stop_code));
        row.push(text(&self.stop_name));
        row.push(opt_text(&self.stop_desc));
        row.push(text(&self.stop_lat));
        row.push(text(&self.stop_lon));
        row.push(Value::Small(self.location_type));
        row.push(opt_text(&self.parent_station));
        row.push(Value::Small(self.wheelchair_boarding));
        proof {
            assert(row_view(row@) =~= self.row());
        }
        row
    }

    fn from_row(row: &Vec<Value>) -> (made: Option<Self>) {
        if row.len() != 9 {
            return None;
        }
        proof {
            lemma_conforming_row(Self::shape().fields, row@);
        }
        let made = Stop {
            stop_id: as_opt_text(&row[0])?,
            stop_code: as_opt_text(&row[1])?,
            stop_name: as_text(&row[2])?,
            stop_desc: as_opt_text(&row[3])?,
            stop_lat: as_text(&row[4])?,
            stop_lon: as_text(&row[5])?,
            location_type: as_small(&row[6])?,
            parent_station: as_opt_text(&row[7])?,
            wheelchair_boarding: as_small(&row[8])?,
        };
        proof {
            assert(made.row() =~= row_view(row@));
        }
        Some(made)
    }
}

/// The weekdays on which a service runs, between two dates.
#[derive(Debug)]
pub struct Calendar {
    pub service_id: Option<String>,
    pub monday: u8,
    pub tuesday: u8,
    pub wednesday: u8,
    pub thursday: u8,
    pub friday: u8,
    pub saturday: u8,
    pub sunday: u8,
    pub start_date: String,
    pub end_date: String,
}

impl Record for Calendar {
    open spec fn shape() -> DescriptorView {
        DescriptorView {
            table: upper_snake_case("Calendar"@),
            fields: seq![
                key("service_id"@, FieldKind::Text),
                column("monday"@, FieldKind::Small),
                column("tuesday"@, FieldKind::Small),
                column("wednesday"@, FieldKind::Small),
                column("thursday"@, FieldKind::Small),
                column("friday"@, FieldKind::Small),
                column("saturday"@, FieldKind::Small),
                column("sunday"@, FieldKind::Small),
                column("start_date"@, FieldKind::Text),
                column("end_date"@, FieldKind::Text),
            ],
        }
    }

    open spec fn row(&self) -> Seq<ValueView> {
        seq![
            opt_text_view(self.service_id),
            ValueView::Small(self.monday),
            ValueView::Small(self.tuesday),
            ValueView::Small(self.wednesday),
            ValueView::Small(self.thursday),
            ValueView::Small(self.friday),
            ValueView::Small(self.saturday),
            ValueView::Small(self.sunday),
            ValueView::Text(self.start_date@),
            ValueView::Text(self.end_date@),
        ]
    }

    proof fn lemma_row_conforms(&self) {
    }

    fn descriptor() -> (d: EntityDescriptor) {
        let mut fields: Vec<FieldSpec> = Vec::new();
        fields.push(key_field("service_id", FieldKind::Text));
        fields.push(column_field("monday", FieldKind::Small));
        fields.push(column_field("tuesday", FieldKind::Small));
        fields.push(column_field("wednesday", FieldKind::Small));
        fields.push(column_field("thursday", FieldKind::Small));
        fields.push(column_field("friday", FieldKind::Small));
        fields.push(column_field("saturday", FieldKind::Small));
        fields.push(column_field("sunday", FieldKind::Small));
        fields.push(column_field("start_date", FieldKind::Text));
        fields.push(column_field("end_date", FieldKind::Text));
        proof {
            assert(fields_view(fields@) =~= Self::shape().fields);
            assert(fields_view(fields@)[0].primary);
        }
        describe("Calendar", fields)
    }

    fn to_row(&self) -> (row: Vec<Value>) {
        let mut row: Vec<Value> = Vec::new();
        row.push(opt_text(&self.service_id));
        row.push(Value::Small(self.monday));
        row.push(Value::Small(self.tuesday));
        row.push(Value::Small(self.wednesday));
        row.push(Value::Small(self.thursday));
        row.push(Value::Small(self.friday));
        row.push(Value::Small(self.saturday));
        row.push(Value::Small(self.sunday));
        row.push(text(&self.start_date));
        row.push(text(&self.end_date));
        proof {
            assert(row_view(row@) =~= self.row());
        }
        row
    }

    fn from_row(row: &Vec<Value>) -> (made: Option<Self>) {
        if row.len() != 10 {
            return None;
        }
        proof {
            lemma_conforming_row(Self::shape().fields, row@);
        }
        let made = Calendar {
            service_id: as_opt_text(&row[0])?,
            monday: as_small(&row[1])?,
            tuesday: as_small(&row[2])?,
            wednesday: as_small(&row[3])?,
            thursday: as_small(&row[4])?,
            friday: as_small(&row[5])?,
            saturday: as_small(&row[6])?,
            sunday: as_small(&row[7])?,
            start_date: as_text(&row[8])?,
            end_date: as_text(&row[9])?,
        };
        proof {
            assert(made.row() =~= row_view(row@));
        }
        Some(made)
    }
}

/// An exception to a service's calendar on one date.
#[derive(Debug)]
pub struct CalendarDate {
    pub service_id: Option<String>,
    pub date: Option<String>,
    pub exception_type: u8,
}

impl Record for CalendarDate {
    open spec fn shape() -> DescriptorView {
        DescriptorView {
            table: upper_snake_case("CalendarDate"@),
            fields: seq![
                key("service_id"@, FieldKind::Text),
                key("date"@, FieldKind::Text),
                column("exception_type"@, FieldKind::Small),
            ],
        }
    }

    open spec fn row(&self) -> Seq<ValueView> {
        seq![
            opt_text_view(self.service_id),
            opt_text_view(self.date),
            ValueView::Small(self.exception_type),
        ]
    }

    proof fn lemma_row_conforms(&self) {
    }

    fn descriptor() -> (d: EntityDescriptor) {
        let mut fields: Vec<FieldSpec> = Vec::new();
        fields.push(key_field("service_id", FieldKind::Text));
        fields.push(key_field("date", FieldKind::Text));
        fields.push(column_field("exception_type", FieldKind::Small));
        proof {
            assert(fields_view(fields@) =~= Self::shape().fields);
            assert(fields_view(fields@)[0].primary);
        }
        describe("CalendarDate", fields)
    }

    fn to_row(&self) -> (row: Vec<Value>) {
        let mut row: Vec<Value> = Vec::new();
        row.push(opt_text(&self.service_id));
        row.push(opt_text(&self.date));
        row.push(Value::Small(self.exception_type));
        proof {
            assert(row_view(row@) =~= self.row());
        }
        row
    }

    fn from_row(row: &Vec<Value>) -> (made: Option<Self>) {
        if row.len() != 3 {
            return None;
        }
        proof {
            lemma_conforming_row(Self::shape().fields, row@);
        }
        let made = CalendarDate {
            service_id: as_opt_text(&row[0])?,
            date: as_opt_text(&row[1])?,
            exception_type: as_small(&row[2])?,
        };
        proof {
            assert(made.row() =~= row_view(row@));
        }
        Some(made)
    }
}

/// One run of a vehicle along a route.
#[derive(Debug)]
pub struct Trip {
    pub route_id: String,
    pub service_id: String,
    pub trip_id: Option<String>,
    pub direction_id: Option<u8>,
    pub block_id: Option<String>,
    pub shape_id: Option<String>,
    pub wheelchair_accessible: Option<u8>,
    pub schd_trip_id: Option<String>,
}

impl Record for Trip {
    open spec fn shape() -> DescriptorView {
        DescriptorView {
            table: upper_snake_case("Trip"@),
            fields: seq![
                column("route_id"@, FieldKind::Text),
                column("service_id"@, FieldKind::Text),
                key("trip_id"@, FieldKind::Text),
                optional("direction_id"@, FieldKind::Small),
                optional("block_id"@, FieldKind::Text),
                optional("shape_id"@, FieldKind::Text),
                optional("wheelchair_accessible"@, FieldKind::Small),
                optional("schd_trip_id"@, FieldKind::Text),
            ],
        }
    }

    open spec fn row(&self) -> Seq<ValueView> {
        seq![
            ValueView::Text(self.route_id@),
            ValueView::Text(self.service_id@),
            opt_text_view(self.trip_id),
            opt_small_view(self.direction_id),
            opt_text_view(self.block_id),
            opt_text_view(self.shape_id),
            opt_small_view(self.wheelchair_accessible),
            opt_text_view(self.schd_trip_id),
        ]
    }

    proof fn lemma_row_conforms(&self) {
    }

    fn descriptor() -> (d: EntityDescriptor) {
        let mut fields: Vec<FieldSpec> = Vec::new();
        fields.push(column_field("route_id", FieldKind::Text));
        fields.push(column_field("service_id", FieldKind::Text));
        fields.push(key_field("trip_id", FieldKind::Text));
        fields.push(optional_field("direction_id", FieldKind::Small));
        fields.push(optional_field("block_id", FieldKind::Text));
        fields.push(optional_field("shape_id", FieldKind::Text));
        fields.push(optional_field("wheelchair_accessible", FieldKind::Small));
        fields.push(optional_field("schd_trip_id", FieldKind::Text));
        proof {
            assert(fields_view(fields@) =~= Self::shape().fields);
            assert(fields_view(fields@)[2].primary);
        }
        describe("Trip", fields)
    }

    fn to_row(&self) -> (row: Vec<Value>) {
        let mut row: Vec<Value> = Vec::new();
        row.push(text(&self.route_id));
        row.push(text(&self.service_id));
        row.push(opt_text(&self.trip_id));
        row.push(opt_small(&self.direction_id));
        row.push(opt_text(&self.block_id));
        row.push(opt_text(&self.shape_id));
        row.push(opt_small(&self.wheelchair_accessible));
        row.push(opt_text(&self.schd_trip_id));
        proof {
            assert(row_view(row@) =~= self.row());
        }
        row
    }

    fn from_row(row: &Vec<Value>) -> (made: Option<Self>) {
        if row.len() != 8 {
            return None;
        }
        proof {
            lemma_conforming_row(Self::shape().fields, row@);
        }
        let made = Trip {
            route_id: as_text(&row[0])?,
            service_id: as_text(&row[1])?,
            trip_id: as_opt_text(&row[2])?,
            direction_id: as_opt_small(&row[3])?,
            block_id: as_opt_text(&row[4])?,
            shape_id: as_opt_text(&row[5])?,
            wheelchair_accessible: as_opt_small(&row[6])?,
            schd_trip_id: as_opt_text(&row[7])?,
        };
        proof {
            assert(made.row() =~= row_view(row@));
        }
        Some(made)
    }
}

/// The headway of a trip that repeats over a span of the day.
#[derive(Debug)]
pub struct Frequency {
    pub trip_id: Option<String>,
    pub start_time: Option<String>,
    pub end_time: String,
    pub headway_secs: usize,
}

impl Record for Frequency {
    open spec fn shape() -> DescriptorView {
        DescriptorView {
            table: upper_snake_case("Frequency"@),
            fields: seq![
                key("trip_id"@, FieldKind::Text),
                key("start_time"@, FieldKind::Text),
                column("end_time"@, FieldKind::Text),
                column("headway_secs"@, FieldKind::Integer),
            ],
        }
    }

    open spec fn row(&self) -> Seq<ValueView> {
        seq![
            opt_text_view(self.trip_id),
            opt_text_view(self.start_time),
            ValueView::Text(self.end_time@),
            ValueView::Integer(self.headway_secs),
        ]
    }

    proof fn lemma_row_conforms(&self) {
    }

    fn descriptor() -> (d: EntityDescriptor) {
        let mut fields: Vec<FieldSpec> = Vec::new();
        fields.push(key_field("trip_id", FieldKind::Text));
        fields.push(key_field("start_time", FieldKind::Text));
        fields.push(column_field("end_time", FieldKind::Text));
        fields.push(column_field("headway_secs", FieldKind::Integer));
        proof {
            assert(fields_view(fields@) =~= Self::shape().fields);
            assert(fields_view(fields@)[0].primary);
        }
        describe("Frequency", fields)
    }

    fn to_row(&self) -> (row: Vec<Value>) {
        let mut row: Vec<Value> = Vec::new();
        row.push(opt_text(&self.trip_id));
        row.push(opt_text(&self.start_time));
        row.push(text(&self.end_time));
        row.push(Value::Integer(self.headway_secs));
        proof {
            assert(row_view(row@) =~= self.row());
        }
        row
    }

    fn from_row(row: &Vec<Value>) -> (made: Option<Self>) {
        if row.len() != 4 {
            return None;
        }
        proof {
            lemma_conforming_row(Self::shape().fields, row@);
        }
        let made = Frequency {
            trip_id: as_opt_text(&row[0])?,
            start_time: as_opt_text(&row[1])?,
            end_time: as_text(&row[2])?,
            headway_secs: as_integer(&row[3])?,
        };
        proof {
            assert(made.row() =~= row_view(row@));
        }
        Some(made)
    }
}

/// One point of the path that a vehicle travels.
#[derive(Debug)]
pub struct Shape {
    pub shape_id: Option<String>,
    pub shape_pt_lat: String,
    pub shape_pt_lon: String,
    pub shape_pt_sequence: Option<usize>,
    pub shape_dist_traveled: Option<usize>,
}

impl Record for Shape {
    open spec fn shape() -> DescriptorView {
        DescriptorView {
            table: upper_snake_case("Shape"@),
            fields: seq![
                key("shape_id"@, FieldKind::Text),
                column("shape_pt_lat"@, FieldKind::Text),
                column("shape_pt_lon"@, FieldKind::Text),
                key("shape_pt_sequence"@, FieldKind::Integer),
                optional("shape_dist_traveled"@, FieldKind::Integer),
            ],
        }
    }

    open spec fn row(&self) -> Seq<ValueView> {
        seq![
            opt_text_view(self.shape_id),
            ValueView::Text(self.shape_pt_lat@),
            ValueView::Text(self.shape_pt_lon@),
            opt_integer_view(self.shape_pt_sequence),
            opt_integer_view(self.shape_dist_traveled),
        ]
    }

    proof fn lemma_row_conforms(&self) {
    }

    fn descriptor() -> (d: EntityDescriptor) {
        let mut fields: Vec<FieldSpec> = Vec::new();
        fields.push(key_field("shape_id", FieldKind::Text));
        fields.push(column_field("shape_pt_lat", FieldKind::Text));
        fields.push(column_field("shape_pt_lon", FieldKind::Text));
        fields.push(key_field("shape_pt_sequence", FieldKind::Integer));
        fields.push(optional_field("shape_dist_traveled", FieldKind::Integer));
        proof {
            assert(fields_view(fields@) =~= Self::shape().fields);
            assert(fields_view(fields@)[0].primary);
        }
        describe("Shape", fields)
    }

    fn to_row(&self) -> (row: Vec<Value>) {
        let mut row: Vec<Value> = Vec::new();
        row.push(opt_text(&self.shape_id));
        row.push(text(&self.shape_pt_lat));
        row.push(text(&self.shape_pt_lon));
        row.push(opt_integer(&self.shape_pt_sequence));
        row.push(opt_integer(&self.shape_dist_traveled));
        proof {
            assert(row_view(row@) =~= self.row());
        }
        row
    }

    fn from_row(row: &Vec<Value>) -> (made: Option<Self>) {
        if row.len() != 5 {
            return None;
        }
        proof {
            lemma_conforming_row(Self::shape().fields, row@);
        }
        let made = Shape {
            shape_id: as_opt_text(&row[0])?,
            shape_pt_lat: as_text(&row[1])?,
            shape_pt_lon: as_text(&row[2])?,
            shape_pt_sequence: as_opt_integer(&row[3])?,
            shape_dist_traveled: as_opt_integer(&row[4])?,
        };
        proof {
            assert(made.row() =~= row_view(row@));
        }
        Some(made)
    }
}

/// The times at which a trip calls at a stop.
#[derive(Debug)]
pub struct StopTime {
    pub trip_id: Option<String>,
    pub arrival_time: Option<String>,
    pub departure_time: Option<String>,
    pub stop_id: String,
    pub stop_sequence: Option<usize>,
    pub stop_headsign: Option<String>,
    pub pickup_type: Option<u8>,
    pub shape_dist_traveled: Option<usize>,
}

impl Record for StopTime {
    open spec fn shape() -> DescriptorView {
        DescriptorView {
            table: upper_snake_case("StopTime"@),
            fields: seq![
                key("trip_id"@, FieldKind::Text),
                optional("arrival_time"@, FieldKind::Text),
                optional("departure_time"@, FieldKind::Text),
                column("stop_id"@, FieldKind::Text),
                key("stop_sequence"@, FieldKind::Integer),
                optional("stop_headsign"@, FieldKind::Text),
                optional("pickup_type"@, FieldKind::Small),
                optional("shape_dist_traveled"@, FieldKind::Integer),
            ],
        }
    }

    open spec fn row(&self) -> Seq<ValueView> {
        seq![
            opt_text_view(self.trip_id),
            opt_text_view(self.arrival_time),
            opt_text_view(self.departure_time),
            ValueView::Text(self.stop_id@),
            opt_integer_view(self.stop_sequence),
            opt_text_view(self.stop_headsign),
            opt_small_view(self.pickup_type),
            opt_integer_view(self.shape_dist_traveled),
        ]
    }

    proof fn lemma_row_conforms(&self) {
    }

    fn descriptor() -> (d: EntityDescriptor) {
        let mut fields: Vec<FieldSpec> = Vec::new();
        fields.push(key_field("trip_id", FieldKind::Text));
        fields.push(optional_field("arrival_time", FieldKind::Text));
        fields.push(optional_field("departure_time", FieldKind::Text));
        fields.push(column_field("stop_id", FieldKind::Text));
        fields.push(key_field("stop_sequence", FieldKind::Integer));
        fields.push(optional_field("stop_headsign", FieldKind::Text));
        fields.push(optional_field("pickup_type", FieldKind::Small));
        fields.push(optional_field("shape_dist_traveled", FieldKind::Integer));
        proof {
            assert(fields_view(fields@) =~= Self::shape().fields);
            assert(fields_view(fields@)[0].primary);
        }
        describe("StopTime", fields)
    }

    fn to_row(&self) -> (row: Vec<Value>) {
        let mut row: Vec<Value> = Vec::new();
        row.push(opt_text(&self.trip_id));
        row.push(opt_text(&self.arrival_time));
        row.push(opt_text(&self.departure_time));
        row.push(text(&self.stop_id));
        row.push(opt_integer(&self.stop_sequence));
        row.push(opt_text(&self.stop_headsign));
        row.push(opt_small(&self.pickup_type));
        row.push(opt_integer(&self.shape_dist_traveled));
        proof {
            assert(row_view(row@) =~= self.row());
        }
        row
    }

    fn from_row(row: &Vec<Value>) -> (made: Option<Self>) {
        if row.len() != 8 {
            return None;
        }
        proof {
            lemma_conforming_row(Self::shape().fields, row@);
        }
        let made = StopTime {
            trip_id: as_opt_text(&row[0])?,
            arrival_time: as_opt_text(&row[1])?,
            departure_time: as_opt_text(&row[2])?,
            stop_id: as_text(&row[3])?,
            stop_sequence: as_opt_integer(&row[4])?,
            stop_headsign: as_opt_text(&row[5])?,
            pickup_type: as_opt_small(&row[6])?,
            shape_dist_traveled: as_opt_integer(&row[7])?,
        };
        proof {
            assert(made.row() =~= row_view(row@));
        }
        Some(made)
    }
}

/// A connection between two stops.
#[derive(Debug)]
pub struct Transfer {
    pub from_stop_id: Option<String>,
    pub to_stop_id: Option<String>,
    pub transfer_type: u8,
}

impl Record for Transfer {
    open spec fn shape() -> DescriptorView {
        DescriptorView {
            table: upper_snake_case("Transfer"@),
            fields: seq![
                key("from_stop_id"@, FieldKind::Text),
                key("to_stop_id"@, FieldKind::Text),
                column("transfer_type"@, FieldKind::Small),
            ],
        }
    }

    open spec fn row(&self) -> Seq<ValueView> {
        seq![
            opt_text_view(self.from_stop_id),
            opt_text_view(self.to_stop_id),
            ValueView::Small(self.transfer_type),
        ]
    }

    proof fn lemma_row_conforms(&self) {
    }

    fn descriptor() -> (d: EntityDescriptor) {
        let mut fields: Vec<FieldSpec> = Vec::new();
        fields.push(key_field("from_stop_id", FieldKind::Text));
        fields.push(key_field("to_stop_id", FieldKind::Text));
        fields.push(column_field("transfer_type", FieldKind::Small));
        proof {
            assert(fields_view(fields@) =~= Self::shape().fields);
            assert(fields_view(fields@)[0].primary);
        }
        describe("Transfer", fields)
    }

    fn to_row(&self) -> (row: Vec<Value>) {
        let mut row: Vec<Value> = Vec::new();
        row.push(opt_text(&self.from_stop_id));
        row.push(opt_text(&self.to_stop_id));
        row.push(Value::Small(self.transfer_type));
        proof {
            assert(row_view(row@) =~= self.row());
        }
        row
    }

    fn from_row(row: &Vec<Value>) -> (made: Option<Self>) {
        if row.len() != 3 {
            return None;
        }
        proof {
            lemma_conforming_row(Self::shape().fields, row@);
        }
        let made = Transfer {
            from_stop_id: as_opt_text(&row[0])?,
            to_stop_id: as_opt_text(&row[1])?,
            transfer_type: as_small(&row[2])?,
        };
        proof {
            assert(made.row() =~= row_view(row@));
        }
        Some(made)
    }
}

} // verus!
