//! The feed normaliser: from the payload's tree to sorted departures and
//! traffic notes, or the first fault in the payload.

use crate::json::{field_of, json_document, nested_field_of, parse_json, Json};
use crate::model::{
    Departure, DepartureView, Line, LineView, Timestamp, TrafficInfoView, WienerLinienTrafficInfo,
    WienerLinienVehicleType,
};
use crate::sort::{
    has_countdown, is_sorted, lemma_sort_is_permutation, lemma_sort_is_sorted, lemma_sort_is_stable,
    sort_departures, sorted_by_countdown,
};
use crate::timestamp::iso8601_timestamp;
use vstd::prelude::*;
use vstd::string::StringExecFns;

verus! {

/// Why a payload could not be normalised.
#[derive(Clone, Debug, PartialEq, Eq)]
pub enum ApiRequestError {
    /// The JSON parser refused the payload; the text is the parser's.
    JsonParsingFailed(String),
    /// A member that must be there is not.
    MissingField(String),
    /// A member is there and is not of the kind named second.
    MalformedValue(String, String),
    /// A line has a vehicle code that is not in the table.
    UnknownVehicleCode(String),
}

/// An `ApiRequestError` with its texts as sequences of characters. What the
/// parser said of a text that it refused is left out.
pub enum FeedError {
    JsonParsingFailed,
    MissingField(Seq<char>),
    MalformedValue(Seq<char>, Seq<char>),
    UnknownVehicleCode(Seq<char>),
}

impl View for ApiRequestError {
    type V = FeedError;

    open spec fn view(&self) -> FeedError {
        match self {
            ApiRequestError::JsonParsingFailed(_) => FeedError::JsonParsingFailed,
            ApiRequestError::MissingField(name) => FeedError::MissingField(name@),
            ApiRequestError::MalformedValue(name, kind) => FeedError::MalformedValue(name@, kind@),
            ApiRequestError::UnknownVehicleCode(code) => FeedError::UnknownVehicleCode(code@),
        }
    }
}

/// The times of one departure as the feed gives them.
#[derive(Clone, Copy, Debug, PartialEq, Eq, Structural)]
pub struct WienerLinienLineDepartureTime {
    pub time_planned: Timestamp,
    pub time_real: Option<Timestamp>,
    pub countdown: i64,
}

/// One line of one monitor as the feed gives it.
#[derive(Debug)]
pub struct WienerLinienLine {
    pub name: String,
    pub destination: String,
    pub vehicle_type: String,
    pub departures: Vec<WienerLinienLineDepartureTime>,
}

/// What a `WienerLinienLine` holds, with its texts as sequences of characters.
pub struct FeedLine {
    pub name: Seq<char>,
    pub destination: Seq<char>,
    pub vehicle_type: Seq<char>,
    pub departures: Seq<WienerLinienLineDepartureTime>,
}

impl View for WienerLinienLine {
    type V = FeedLine;

    open spec fn view(&self) -> FeedLine {
        FeedLine {
            name: self.name@,
            destination: self.destination@,
            vehicle_type: self.vehicle_type@,
            departures: self.departures@,
        }
    }
}

/// The member `key`, which must be there.
pub open spec fn required_field(json: Json, key: Seq<char>) -> Result<Json, FeedError> {
    match field_of(json, key) {
        Some(value) => Ok(value),
        None => Err(FeedError::MissingField(key)),
    }
}

/// The characters of a node that must be a text.
pub open spec fn text_value(json: Json, name: Seq<char>) -> Result<Seq<char>, FeedError> {
    match json {
        Json::Text(s) => Ok(s@),
        _ => Err(FeedError::MalformedValue(name, "string"@)),
    }
}

/// The member `key`, which must be there and be a text.
pub open spec fn required_text(json: Json, key: Seq<char>) -> Result<Seq<char>, FeedError> {
    match required_field(json, key) {
        Ok(value) => text_value(value, key),
        Err(e) => Err(e),
    }
}

/// The member `key`, which must be there and be a list.
pub open spec fn required_list(json: Json, key: Seq<char>) -> Result<Seq<Json>, FeedError> {
    match required_field(json, key) {
        Ok(Json::List(items)) => Ok(items@),
        Ok(_) => Err(FeedError::MalformedValue(key, "array"@)),
        Err(e) => Err(e),
    }
}

/// The member `key`, which must be there and be a whole number.
pub open spec fn required_integer(json: Json, key: Seq<char>) -> Result<i64, FeedError> {
    match required_field(json, key) {
        Ok(Json::Number(Some(n))) => Ok(n),
        Ok(_) => Err(FeedError::MalformedValue(key, "integer"@)),
        Err(e) => Err(e),
    }
}

/// The time that a node states, which must be a text that the timestamp
/// parser reads.
pub open spec fn timestamp_value(json: Json, name: Seq<char>) -> Result<Timestamp, FeedError> {
    match json {
        Json::Text(s) => match iso8601_timestamp(s@) {
            Some(t) => Ok(t),
            None => Err(FeedError::MalformedValue(name, "timestamp"@)),
        },
        _ => Err(FeedError::MalformedValue(name, "timestamp"@)),
    }
}

/// The member `key`, which must be there and state a time.
pub open spec fn required_timestamp(json: Json, key: Seq<char>) -> Result<Timestamp, FeedError> {
    match required_field(json, key) {
        Ok(value) => timestamp_value(value, key),
        Err(e) => Err(e),
    }
}

/// The member `key`, which states a time where it is there and not null.
pub open spec fn optional_timestamp(json: Json, key: Seq<char>) -> Result<
    Option<Timestamp>,
    FeedError,
> {
    match field_of(json, key) {
        None => Ok(None),
        Some(Json::Null) => Ok(None),
        Some(value) => match timestamp_value(value, key) {
            Ok(t) => Ok(Some(t)),
            Err(e) => Err(e),
        },
    }
}

/// The times of one entry of a line's departures.
pub open spec fn departure_time_of(json: Json) -> Result<WienerLinienLineDepartureTime, FeedError> {
    match required_field(json, "departureTime"@) {
        Err(e) => Err(e),
        Ok(time) => match required_timestamp(time, "timePlanned"@) {
            Err(e) => Err(e),
            Ok(time_planned) => match optional_timestamp(time, "timeReal"@) {
                Err(e) => Err(e),
                Ok(time_real) => match required_integer(time, "countdown"@) {
                    Err(e) => Err(e),
                    Ok(countdown) => Ok(
                        WienerLinienLineDepartureTime { time_planned, time_real, countdown },
                    ),
                },
            },
        },
    }
}

/// The times of all entries of a line's departures, or the fault of the
/// first entry that has one.
pub open spec fn departure_times_of(items: Seq<Json>) -> Result<
    Seq<WienerLinienLineDepartureTime>,
    FeedError,
>
    decreases items.len(),
{
    if items.len() == 0 {
        Ok(Seq::empty())
    } else {
        match departure_times_of(items.drop_last()) {
            Err(e) => Err(e),
            Ok(head) => match departure_time_of(items.last()) {
                Err(e) => Err(e),
                Ok(time) => Ok(head.push(time)),
            },
        }
    }
}

/// One entry of a monitor's lines: name, destination, vehicle code and
/// departures, read in this order.
pub open spec fn feed_line_of(json: Json) -> Result<FeedLine, FeedError> {
    match required_text(json, "name"@) {
        Err(e) => Err(e),
        Ok(name) => match required_text(json, "towards"@) {
            Err(e) => Err(e),
            Ok(destination) => match required_text(json, "type"@) {
                Err(e) => Err(e),
                Ok(vehicle_type) => match required_field(json, "departures"@) {
                    Err(e) => Err(e),
                    Ok(node) => match required_list(node, "departure"@) {
                        Err(e) => Err(e),
                        Ok(items) => match departure_times_of(items) {
                            Err(e) => Err(e),
                            Ok(departures) => Ok(
                                FeedLine { name, destination, vehicle_type, departures },
                            ),
                        },
                    },
                },
            },
        },
    }
}

/// The table of vehicle codes.
pub open spec fn vehicle_type_of(code: Seq<char>) -> Option<WienerLinienVehicleType> {
    if code == "ptTram"@ {
        Some(WienerLinienVehicleType::Tram)
    } else if code == "ptMetro"@ {
        Some(WienerLinienVehicleType::Metro)
    } else if code == "ptBusCity"@ {
        Some(WienerLinienVehicleType::CityBus)
    } else if code == "ptBusNight"@ {
        Some(WienerLinienVehicleType::NightBus)
    } else {
        None
    }
}

/// The line that a feed's line stands for. A vehicle code that is not in
/// the table is a fault.
pub open spec fn line_of(input: FeedLine) -> Result<LineView, FeedError> {
    match vehicle_type_of(input.vehicle_type) {
        Some(vehicle_type) => Ok(LineView { vehicle_type, name: input.name }),
        None => Err(FeedError::UnknownVehicleCode(input.vehicle_type)),
    }
}

/// The departure of a line at the given times from the given station.
pub open spec fn departure_of(
    input: FeedLine,
    time: WienerLinienLineDepartureTime,
    station: Seq<char>,
) -> Result<DepartureView, FeedError> {
    match line_of(input) {
        Err(e) => Err(e),
        Ok(line) => Ok(
            DepartureView {
                time_planned: time.time_planned,
                time_real: time.time_real,
                countdown: time.countdown,
                station_name: station,
                destination_name: input.destination,
                line,
            },
        ),
    }
}

/// The departures of a feed's line from the given station, in the feed's
/// order.
pub open spec fn line_departures(input: FeedLine, station: Seq<char>) -> Result<
    Seq<DepartureView>,
    FeedError,
> {
    match line_of(input) {
        Err(e) => Err(e),
        Ok(line) => Ok(
            Seq::new(
                input.departures.len(),
                |i: int|
                    DepartureView {
                        time_planned: input.departures[i].time_planned,
                        time_real: input.departures[i].time_real,
                        countdown: input.departures[i].countdown,
                        station_name: station,
                        destination_name: input.destination,
                        line,
                    },
            ),
        ),
    }
}

/// The departures of all entries of a monitor's lines, or the fault of the
/// first entry that has one.
pub open spec fn lines_departures(items: Seq<Json>, station: Seq<char>) -> Result<
    Seq<DepartureView>,
    FeedError,
>
    decreases items.len(),
{
    if items.len() == 0 {
        Ok(Seq::empty())
    } else {
        match lines_departures(items.drop_last(), station) {
            Err(e) => Err(e),
            Ok(head) => match feed_line_of(items.last()) {
                Err(e) => Err(e),
                Ok(input) => match line_departures(input, station) {
                    Err(e) => Err(e),
                    Ok(departures) => Ok(head + departures),
                },
            },
        }
    }
}

/// The title of a monitor's station.
pub open spec fn station_title_of(monitor: Json) -> Result<Seq<char>, FeedError> {
    match required_field(monitor, "locationStop"@) {
        Err(e) => Err(e),
        Ok(stop) => match required_field(stop, "properties"@) {
            Err(e) => Err(e),
            Ok(properties) => required_text(properties, "title"@),
        },
    }
}

/// The entries of a monitor's lines. The list must be there.
pub open spec fn monitor_lines(monitor: Json) -> Result<Seq<Json>, FeedError> {
    match field_of(monitor, "lines"@) {
        Some(Json::List(items)) => Ok(items@),
        _ => Err(FeedError::MissingField("lines"@)),
    }
}

/// The departures of one monitor: its station's title is read first, then
/// its lines.
pub open spec fn monitor_departures(monitor: Json) -> Result<Seq<DepartureView>, FeedError> {
    match station_title_of(monitor) {
        Err(e) => Err(e),
        Ok(station) => match monitor_lines(monitor) {
            Err(e) => Err(e),
            Ok(items) => lines_departures(items, station),
        },
    }
}

/// The departures of all monitors, or the fault of the first monitor that
/// has one.
pub open spec fn monitors_departures(items: Seq<Json>) -> Result<Seq<DepartureView>, FeedError>
    decreases items.len(),
{
    if items.len() == 0 {
        Ok(Seq::empty())
    } else {
        match monitors_departures(items.drop_last()) {
            Err(e) => Err(e),
            Ok(head) => match monitor_departures(items.last()) {
                Err(e) => Err(e),
                Ok(departures) => Ok(head + departures),
            },
        }
    }
}

/// The payload's list of monitors. It must be there.
pub open spec fn monitor_list(payload: Json) -> Result<Seq<Json>, FeedError> {
    match nested_field_of(payload, "data"@, "monitors"@) {
        Some(Json::List(items)) => Ok(items@),
        _ => Err(FeedError::MissingField("monitors"@)),
    }
}

/// The member `key` as a text, where it is there and not null.
pub open spec fn optional_text(json: Json, key: Seq<char>) -> Result<Option<Seq<char>>, FeedError> {
    match field_of(json, key) {
        None => Ok(None),
        Some(Json::Null) => Ok(None),
        Some(value) => match text_value(value, key) {
            Ok(s) => Ok(Some(s)),
            Err(e) => Err(e),
        },
    }
}

/// One traffic note.
pub open spec fn traffic_note_of(json: Json) -> Result<TrafficInfoView, FeedError> {
    match required_text(json, "title"@) {
        Err(e) => Err(e),
        Ok(title) => match required_text(json, "description"@) {
            Err(e) => Err(e),
            Ok(description) => match optional_text(json, "priority"@) {
                Err(e) => Err(e),
                Ok(priority) => Ok(TrafficInfoView { title, description, priority }),
            },
        },
    }
}

/// All traffic notes of a list, or nothing where one of them has a fault.
pub open spec fn traffic_notes_of(items: Seq<Json>) -> Option<Seq<TrafficInfoView>>
    decreases items.len(),
{
    if items.len() == 0 {
        Some(Seq::empty())
    } else {
        match traffic_notes_of(items.drop_last()) {
            None => None,
            Some(head) => match traffic_note_of(items.last()) {
                Err(_) => None,
                Ok(note) => Some(head.push(note)),
            },
        }
    }
}

/// The payload's traffic notes: absent where the payload has no list of
/// them, and where one of them has a fault.
pub open spec fn traffic_notes(payload: Json) -> Option<Seq<TrafficInfoView>> {
    match nested_field_of(payload, "data"@, "trafficInfos"@) {
        Some(Json::List(items)) => traffic_notes_of(items@),
        _ => None,
    }
}

/// What normalising a payload gives: the departures of all monitors sorted
/// by countdown together with the traffic notes, or the first fault among
/// the monitors.
pub open spec fn normalized(payload: Json) -> Result<
    (Seq<DepartureView>, Option<Seq<TrafficInfoView>>),
    FeedError,
> {
    match monitor_list(payload) {
        Err(e) => Err(e),
        Ok(monitors) => match monitors_departures(monitors) {
            Err(e) => Err(e),
            Ok(departures) => Ok((sorted_by_countdown(departures), traffic_notes(payload))),
        },
    }
}

fn missing_field(name: &str) -> (e: ApiRequestError)
    ensures
        e@ == FeedError::MissingField(name@),
{
    ApiRequestError::MissingField(String::from_str(name))
}

fn malformed_value(name: &str, kind: &str) -> (e: ApiRequestError)
    ensures
        e@ == FeedError::MalformedValue(name@, kind@),
{
    ApiRequestError::MalformedValue(String::from_str(name), String::from_str(kind))
}

fn member<'a>(json: &'a Json, key: &str) -> (r: Result<&'a Json, ApiRequestError>)
    ensures
        match r {
            Ok(value) => required_field(*json, key@) == Ok::<Json, FeedError>(*value),
            Err(e) => required_field(*json, key@) == Err::<Json, FeedError>(e@),
        },
{
    match json.get(key) {
        Some(value) => Ok(value),
        None => Err(missing_field(key)),
    }
}

fn text_from(json: &Json, name: &str) -> (r: Result<String, ApiRequestError>)
    ensures
        match r {
            Ok(s) => text_value(*json, name@) == Ok::<Seq<char>, FeedError>(s@),
            Err(e) => text_value(*json, name@) == Err::<Seq<char>, FeedError>(e@),
        },
{
    match json {
        Json::Text(s) => Ok(s.clone()),
        _ => Err(malformed_value(name, "string")),
    }
}

fn member_text(json: &Json, key: &str) -> (r: Result<String, ApiRequestError>)
    ensures
        match r {
            Ok(s) => required_text(*json, key@) == Ok::<Seq<char>, FeedError>(s@),
            Err(e) => required_text(*json, key@) == Err::<Seq<char>, FeedError>(e@),
        },
{
    let value = member(json, key)?;
    text_from(value, key)
}

fn member_list<'a>(json: &'a Json, key: &str) -> (r: Result<&'a Vec<Json>, ApiRequestError>)
    ensures
        match r {
            Ok(items) => required_list(*json, key@) == Ok::<Seq<Json>, FeedError>(items@),
            Err(e) => required_list(*json, key@) == Err::<Seq<Json>, FeedError>(e@),
        },
{
    match member(json, key)? {
        Json::List(items) => Ok(items),
        _ => Err(malformed_value(key, "array")),
    }
}

fn member_integer(json: &Json, key: &str) -> (r: Result<i64, ApiRequestError>)
    ensures
        match r {
            Ok(n) => required_integer(*json, key@) == Ok::<i64, FeedError>(n),
            Err(e) => required_integer(*json, key@) == Err::<i64, FeedError>(e@),
        },
{
    match member(json, key)? {
        Json::Number(Some(n)) => Ok(*n),
        _ => Err(malformed_value(key, "integer")),
    }
}

fn timestamp_from(json: &Json, name: &str) -> (r: Result<Timestamp, ApiRequestError>)
    ensures
        match r {
            Ok(t) => timestamp_value(*json, name@) == Ok::<Timestamp, FeedError>(t),
            Err(e) => timestamp_value(*json, name@) == Err::<Timestamp, FeedError>(e@),
        },
{
    match json {
        Json::Text(s) => match Timestamp::parse(s.as_str()) {
            Some(t) => Ok(t),
            None => Err(malformed_value(name, "timestamp")),
        },
        _ => Err(malformed_value(name, "timestamp")),
    }
}

fn member_timestamp(json: &Json, key: &str) -> (r: Result<Timestamp, ApiRequestError>)
    ensures
        match r {
            Ok(t) => required_timestamp(*json, key@) == Ok::<Timestamp, FeedError>(t),
            Err(e) => required_timestamp(*json, key@) == Err::<Timestamp, FeedError>(e@),
        },
{
    let value = member(json, key)?;
    timestamp_from(value, key)
}

fn member_optional_timestamp(json: &Json, key: &str) -> (r: Result<
    Option<Timestamp>,
    ApiRequestError,
>)
    ensures
        match r {
            Ok(t) => optional_timestamp(*json, key@) == Ok::<Option<Timestamp>, FeedError>(t),
            Err(e) => optional_timestamp(*json, key@) == Err::<Option<Timestamp>, FeedError>(e@),
        },
{
    match json.get(key) {
        None => Ok(None),
        Some(Json::Null) => Ok(None),
        Some(value) => match timestamp_from(value, key) {
            Ok(t) => Ok(Some(t)),
            Err(e) => Err(e),
        },
    }
}

/// The times of one entry of a line's departures.
pub fn departure_time_from(json: &Json) -> (r: Result<
    WienerLinienLineDepartureTime,
    ApiRequestError,
>)
    ensures
        match r {
            Ok(time) => departure_time_of(*json) == Ok::<WienerLinienLineDepartureTime, FeedError>(
                time,
            ),
            Err(e) => departure_time_of(*json) == Err::<WienerLinienLineDepartureTime, FeedError>(
                e@,
            ),
        },
{
    let time = member(json, "departureTime")?;
    let time_planned = member_timestamp(time, "timePlanned")?;
    let time_real = member_optional_timestamp(time, "timeReal")?;
    let countdown = member_integer(time, "countdown")?;
    Ok(WienerLinienLineDepartureTime { time_planned, time_real, countdown })
}

proof fn lemma_departure_times_fault(items: Seq<Json>, k: int)
    requires
        0 <= k <= items.len(),
        departure_times_of(items.take(k)) is Err,
    ensures
        departure_times_of(items) == departure_times_of(items.take(k)),
    decreases items.len(),
{
    if k == items.len() {
        assert(items.take(k) =~= items);
    } else {
        assert(items.drop_last().take(k) =~= items.take(k));
        lemma_departure_times_fault(items.drop_last(), k);
    }
}

/// The times of all entries of a line's departures, or the fault of the
/// first entry that has one.
pub fn departure_times_from(items: &Vec<Json>) -> (r: Result<
    Vec<WienerLinienLineDepartureTime>,
    ApiRequestError,
>)
    ensures
        match r {
            Ok(times) => departure_times_of(items@) == Ok::<
                Seq<WienerLinienLineDepartureTime>,
                FeedError,
            >(times@),
            Err(e) => departure_times_of(items@) == Err::<
                Seq<WienerLinienLineDepartureTime>,
                FeedError,
            >(e@),
        },
{
    let mut times: Vec<WienerLinienLineDepartureTime> = Vec::new();
    let mut i: usize = 0;
    while i < items.len()
        invariant
            i <= items.len(),
            departure_times_of(items@.take(i as int)) == Ok::<
                Seq<WienerLinienLineDepartureTime>,
                FeedError,
            >(times@),
        decreases items.len() - i,
    {
        proof {
            assert(items@.take(i + 1).drop_last() =~= items@.take(i as int));
            assert(items@.take(i + 1).last() == items@[i as int]);
        }
        match departure_time_from(&items[i]) {
            Ok(time) => {
                times.push(time);
            },
            Err(e) => {
                proof {
                    lemma_departure_times_fault(items@, i + 1);
                }
                return Err(e);
            },
        }
        i += 1;
    }
    assert(items@.take(i as int) =~= items@);
    Ok(times)
}

/// One entry of a monitor's lines.
pub fn feed_line_from(json: &Json) -> (r: Result<WienerLinienLine, ApiRequestError>)
    ensures
        match r {
            Ok(line) => feed_line_of(*json) == Ok::<FeedLine, FeedError>(line@),
            Err(e) => feed_line_of(*json) == Err::<FeedLine, FeedError>(e@),
        },
{
    let name = member_text(json, "name")?;
    let destination = member_text(json, "towards")?;
    let vehicle_type = member_text(json, "type")?;
    let node = member(json, "departures")?;
    let items = member_list(node, "departure")?;
    let departures = departure_times_from(items)?;
    Ok(WienerLinienLine { name, destination, vehicle_type, departures })
}

/// The kind of vehicle that a code of the feed stands for.
pub fn vehicle_type_from(code: &String) -> (r: Option<WienerLinienVehicleType>)
    ensures
        r == vehicle_type_of(code@),
{
    if *code == String::from_str("ptTram") {
        Some(WienerLinienVehicleType::Tram)
    } else if *code == String::from_str("ptMetro") {
        Some(WienerLinienVehicleType::Metro)
    } else if *code == String::from_str("ptBusCity") {
        Some(WienerLinienVehicleType::CityBus)
    } else if *code == String::from_str("ptBusNight") {
        Some(WienerLinienVehicleType::NightBus)
    } else {
        None
    }
}

impl Line {
    /// The line that a feed's line stands for, or the fault that its
    /// vehicle code is not in the table.
    pub fn from_wiener_linien_line(input: &WienerLinienLine) -> (r: Result<Line, ApiRequestError>)
        ensures
            match r {
                Ok(line) => line_of(input@) == Ok::<LineView, FeedError>(line@),
                Err(e) => line_of(input@) == Err::<LineView, FeedError>(e@),
            },
    {
        match vehicle_type_from(&input.vehicle_type) {
            Some(vehicle_type) => Ok(Line { vehicle_type, name: input.name.clone() }),
            None => Err(ApiRequestError::UnknownVehicleCode(input.vehicle_type.clone())),
        }
    }
}

impl Departure {
    /// The departure of a feed's line at the given times from the given
    /// station, or the fault of the line.
    pub fn from_wiener_linien_api(
        t_line: &WienerLinienLine,
        t_time_planned: &Timestamp,
        t_time_real: &Option<Timestamp>,
        t_countdown: i64,
        t_station_name: &str,
    ) -> (r: Result<Departure, ApiRequestError>)
        ensures
            match r {
                Ok(departure) => departure_of(
                    t_line@,
                    WienerLinienLineDepartureTime {
                        time_planned: *t_time_planned,
                        time_real: *t_time_real,
                        countdown: t_countdown,
                    },
                    t_station_name@,
                ) == Ok::<DepartureView, FeedError>(departure@),
                Err(e) => line_of(t_line@) == Err::<LineView, FeedError>(e@),
            },
    {
        let line = Line::from_wiener_linien_line(t_line)?;
        Ok(
            Departure {
                line,
                time_planned: *t_time_planned,
                time_real: *t_time_real,
                countdown: t_countdown,
                destination_name: t_line.destination.clone(),
                station_name: String::from_str(t_station_name),
            },
        )
    }
}

/// The departures of a feed's line from the given station, in the feed's
/// order, or the fault of the line.
pub fn line_departures_from(input: &WienerLinienLine, station: &str) -> (r: Result<
    Vec<Departure>,
    ApiRequestError,
>)
    ensures
        match r {
            Ok(departures) => line_departures(input@, station@) == Ok::<
                Seq<DepartureView>,
                FeedError,
            >(departures.deep_view()),
            Err(e) => line_departures(input@, station@) == Err::<Seq<DepartureView>, FeedError>(e@),
        },
{
    let line = Line::from_wiener_linien_line(input)?;
    let mut departures: Vec<Departure> = Vec::new();
    let mut i: usize = 0;
    while i < input.departures.len()
        invariant
            i <= input.departures.len(),
            line_of(input@) == Ok::<LineView, FeedError>(line@),
            departures@.len() == i,
            forall|k: int|
                0 <= k < i ==> (#[trigger] departures@[k])@ == line_departures(
                    input@,
                    station@,
                )->Ok_0[k],
        decreases input.departures.len() - i,
    {
        let time = &input.departures[i];
        match Departure::from_wiener_linien_api(
            input,
            &time.time_planned,
            &time.time_real,
            time.countdown,
            station,
        ) {
            Ok(departure) => {
                departures.push(departure);
            },
            Err(e) => {
                return Err(e);
            },
        }
        i += 1;
    }
    assert(departures.deep_view() =~= line_departures(input@, station@)->Ok_0);
    Ok(departures)
}

proof fn lemma_lines_fault(items: Seq<Json>, station: Seq<char>, k: int)
    requires
        0 <= k <= items.len(),
        lines_departures(items.take(k), station) is Err,
    ensures
        lines_departures(items, station) == lines_departures(items.take(k), station),
    decreases items.len(),
{
    if k == items.len() {
        assert(items.take(k) =~= items);
    } else {
        assert(items.drop_last().take(k) =~= items.take(k));
        lemma_lines_fault(items.drop_last(), station, k);
    }
}

proof fn lemma_monitors_fault(items: Seq<Json>, k: int)
    requires
        0 <= k <= items.len(),
        monitors_departures(items.take(k)) is Err,
    ensures
        monitors_departures(items) == monitors_departures(items.take(k)),
    decreases items.len(),
{
    if k == items.len() {
        assert(items.take(k) =~= items);
    } else {
        assert(items.drop_last().take(k) =~= items.take(k));
        lemma_monitors_fault(items.drop_last(), k);
    }
}

proof fn lemma_notes_fault(items: Seq<Json>, k: int)
    requires
        0 <= k <= items.len(),
        traffic_notes_of(items.take(k)) is None,
    ensures
        traffic_notes_of(items) is None,
    decreases items.len(),
{
    if k == items.len() {
        assert(items.take(k) =~= items);
    } else {
        assert(items.drop_last().take(k) =~= items.take(k));
        lemma_notes_fault(items.drop_last(), k);
    }
}

/// One monitor with a fault fails the departures of all monitors.
pub proof fn lemma_faulty_monitor_fails_all(items: Seq<Json>, k: int)
    requires
        0 <= k < items.len(),
        monitor_departures(items[k]) is Err,
    ensures
        monitors_departures(items) is Err,
    decreases items.len(),
{
    if k == items.len() - 1 {
    } else {
        assert(items.drop_last()[k] == items[k]);
        lemma_faulty_monitor_fails_all(items.drop_last(), k);
    }
}

/// One traffic note with a fault leaves out all traffic notes.
pub proof fn lemma_faulty_note_discards_all(items: Seq<Json>, k: int)
    requires
        0 <= k < items.len(),
        traffic_note_of(items[k]) is Err,
    ensures
        traffic_notes_of(items) is None,
    decreases items.len(),
{
    if k == items.len() - 1 {
    } else {
        assert(items.drop_last()[k] == items[k]);
        lemma_faulty_note_discards_all(items.drop_last(), k);
    }
}

/// Whether a payload can be normalised is decided by its monitors alone:
/// its traffic notes, present or absent, sound or faulty, never fail it,
/// and they come out as they are read.
pub proof fn lemma_traffic_notes_never_fail(payload: Json)
    ensures
        normalized(payload) is Ok <==> (monitor_list(payload) matches Ok(monitors)
            && monitors_departures(monitors) is Ok),
        normalized(payload) matches Ok(found) ==> found.1 == traffic_notes(payload),
{
}

/// What comes out of normalising is in the order of the board, holds the
/// departures of the monitors and no others, and keeps the feed's order
/// among departures with the same countdown.
pub proof fn lemma_normalized_is_sorted(payload: Json)
    requires
        normalized(payload) is Ok,
    ensures
        is_sorted(normalized(payload)->Ok_0.0),
        normalized(payload)->Ok_0.0.to_multiset() == monitors_departures(
            monitor_list(payload)->Ok_0,
        )->Ok_0.to_multiset(),
        forall|c: int|
            #[trigger] normalized(payload)->Ok_0.0.filter(has_countdown(c)) == monitors_departures(
                monitor_list(payload)->Ok_0,
            )->Ok_0.filter(has_countdown(c)),
{
    let departures = monitors_departures(monitor_list(payload)->Ok_0)->Ok_0;
    lemma_sort_is_sorted(departures);
    lemma_sort_is_permutation(departures);
    assert forall|c: int|
        #[trigger] sorted_by_countdown(departures).filter(has_countdown(c)) == departures.filter(
            has_countdown(c),
        ) by {
        lemma_sort_is_stable(departures, c);
    }
}

/// The departures of all entries of a monitor's lines from the given
/// station, or the fault of the first entry that has one.
pub fn lines_departures_from(items: &Vec<Json>, station: &str) -> (r: Result<
    Vec<Departure>,
    ApiRequestError,
>)
    ensures
        match r {
            Ok(departures) => lines_departures(items@, station@) == Ok::<
                Seq<DepartureView>,
                FeedError,
            >(departures.deep_view()),
            Err(e) => lines_departures(items@, station@) == Err::<Seq<DepartureView>, FeedError>(
                e@,
            ),
        },
{
    let mut departures: Vec<Departure> = Vec::new();
    let mut i: usize = 0;
    assert(departures.deep_view() =~= Seq::<DepartureView>::empty());
    while i < items.len()
        invariant
            i <= items.len(),
            lines_departures(items@.take(i as int), station@) == Ok::<
                Seq<DepartureView>,
                FeedError,
            >(departures.deep_view()),
        decreases items.len() - i,
    {
        proof {
            assert(items@.take(i + 1).drop_last() =~= items@.take(i as int));
            assert(items@.take(i + 1).last() == items@[i as int]);
        }
        let found = match feed_line_from(&items[i]) {
            Ok(input) => line_departures_from(&input, station),
            Err(e) => Err(e),
        };
        match found {
            Ok(mut more) => {
                let ghost head = departures.deep_view();
                let ghost tail = more.deep_view();
                departures.append(&mut more);
                assert(departures.deep_view() =~= head + tail);
            },
            Err(e) => {
                proof {
                    lemma_lines_fault(items@, station@, i + 1);
                }
                return Err(e);
            },
        }
        i += 1;
    }
    assert(items@.take(i as int) =~= items@);
    Ok(departures)
}

/// The departures of one monitor, or its first fault.
pub fn monitor_departures_from(monitor: &Json) -> (r: Result<Vec<Departure>, ApiRequestError>)
    ensures
        match r {
            Ok(departures) => monitor_departures(*monitor) == Ok::<Seq<DepartureView>, FeedError>(
                departures.deep_view(),
            ),
            Err(e) => monitor_departures(*monitor) == Err::<Seq<DepartureView>, FeedError>(e@),
        },
{
    let stop = member(monitor, "locationStop")?;
    let properties = member(stop, "properties")?;
    let station = member_text(properties, "title")?;
    match monitor.get("lines") {
        Some(Json::List(items)) => lines_departures_from(items, station.as_str()),
        _ => Err(missing_field("lines")),
    }
}

/// The departures of all monitors in the feed's order, or the fault of
/// the first monitor that has one.
pub fn monitors_departures_from(items: &Vec<Json>) -> (r: Result<Vec<Departure>, ApiRequestError>)
    ensures
        match r {
            Ok(departures) => monitors_departures(items@) == Ok::<Seq<DepartureView>, FeedError>(
                departures.deep_view(),
            ),
            Err(e) => monitors_departures(items@) == Err::<Seq<DepartureView>, FeedError>(e@),
        },
{
    let mut departures: Vec<Departure> = Vec::new();
    let mut i: usize = 0;
    assert(departures.deep_view() =~= Seq::<DepartureView>::empty());
    while i < items.len()
        invariant
            i <= items.len(),
            monitors_departures(items@.take(i as int)) == Ok::<Seq<DepartureView>, FeedError>(
                departures.deep_view(),
            ),
        decreases items.len() - i,
    {
        proof {
            assert(items@.take(i + 1).drop_last() =~= items@.take(i as int));
            assert(items@.take(i + 1).last() == items@[i as int]);
        }
        match monitor_departures_from(&items[i]) {
            Ok(mut more) => {
                let ghost head = departures.deep_view();
                let ghost tail = more.deep_view();
                departures.append(&mut more);
                assert(departures.deep_view() =~= head + tail);
            },
            Err(e) => {
                proof {
                    lemma_monitors_fault(items@, i + 1);
                }
                return Err(e);
            },
        }
        i += 1;
    }
    assert(items@.take(i as int) =~= items@);
    Ok(departures)
}

fn member_optional_text(json: &Json, key: &str) -> (r: Result<Option<String>, ApiRequestError>)
    ensures
        match r {
            Ok(Some(s)) => optional_text(*json, key@) == Ok::<Option<Seq<char>>, FeedError>(
                Some(s@),
            ),
            Ok(None) => optional_text(*json, key@) == Ok::<Option<Seq<char>>, FeedError>(None),
            Err(e) => optional_text(*json, key@) == Err::<Option<Seq<char>>, FeedError>(e@),
        },
{
    match json.get(key) {
        None => Ok(None),
        Some(Json::Null) => Ok(None),
        Some(value) => match text_from(value, key) {
            Ok(s) => Ok(Some(s)),
            Err(e) => Err(e),
        },
    }
}

/// One traffic note, or its first fault.
pub fn traffic_note_from(json: &Json) -> (r: Result<WienerLinienTrafficInfo, ApiRequestError>)
    ensures
        match r {
            Ok(note) => traffic_note_of(*json) == Ok::<TrafficInfoView, FeedError>(note@),
            Err(e) => traffic_note_of(*json) == Err::<TrafficInfoView, FeedError>(e@),
        },
{
    let title = member_text(json, "title")?;
    let description = member_text(json, "description")?;
    let priority = member_optional_text(json, "priority")?;
    Ok(WienerLinienTrafficInfo { title, description, priority })
}

/// The payload's traffic notes: absent where the payload has no list of
/// them, and where one of them has a fault.
pub fn traffic_notes_from(payload: &Json) -> (r: Option<Vec<WienerLinienTrafficInfo>>)
    ensures
        match r {
            Some(notes) => traffic_notes(*payload) == Some(notes.deep_view()),
            None => traffic_notes(*payload) is None,
        },
{
    let data = match payload.get("data") {
        Some(data) => data,
        None => {
            return None;
        },
    };
    let items = match data.get("trafficInfos") {
        Some(Json::List(items)) => items,
        _ => {
            return None;
        },
    };
    let mut notes: Vec<WienerLinienTrafficInfo> = Vec::new();
    let mut i: usize = 0;
    assert(notes.deep_view() =~= Seq::<TrafficInfoView>::empty());
    while i < items.len()
        invariant
            i <= items.len(),
            traffic_notes(*payload) == traffic_notes_of(items@),
            traffic_notes_of(items@.take(i as int)) == Some(notes.deep_view()),
        decreases items.len() - i,
    {
        proof {
            assert(items@.take(i + 1).drop_last() =~= items@.take(i as int));
            assert(items@.take(i + 1).last() == items@[i as int]);
        }
        match traffic_note_from(&items[i]) {
            Ok(note) => {
                let ghost head = notes.deep_view();
                notes.push(note);
                assert(notes.deep_view() =~= head.push(note@));
            },
            Err(_) => {
                proof {
                    lemma_notes_fault(items@, i + 1);
                }
                return None;
            },
        }
        i += 1;
    }
    assert(items@.take(i as int) =~= items@);
    Some(notes)
}

/// What a result of normalising holds, as the contracts see it.
pub open spec fn normalized_view(
    r: Result<(Vec<Departure>, Option<Vec<WienerLinienTrafficInfo>>), ApiRequestError>,
) -> Result<(Seq<DepartureView>, Option<Seq<TrafficInfoView>>), FeedError> {
    match r {
        Ok((departures, notes)) => Ok(
            (
                departures.deep_view(),
                match notes {
                    Some(ns) => Some(ns.deep_view()),
                    None => None,
                },
            ),
        ),
        Err(e) => Err(e@),
    }
}

/// Normalises a payload: the departures of all its monitors, sorted by
/// countdown with ties in the feed's order, and its traffic notes. A fault
/// among the monitors fails the whole; a fault among the traffic notes only
/// leaves them out.
pub fn normalize(payload: &Json) -> (r: Result<
    (Vec<Departure>, Option<Vec<WienerLinienTrafficInfo>>),
    ApiRequestError,
>)
    ensures
        normalized_view(r) == normalized(*payload),
        r matches Ok((departures, _)) ==> is_sorted(departures.deep_view()),
{
    let monitors = match payload.get("data") {
        Some(data) => match data.get("monitors") {
            Some(Json::List(items)) => items,
            _ => {
                return Err(missing_field("monitors"));
            },
        },
        None => {
            return Err(missing_field("monitors"));
        },
    };
    let mut departures = monitors_departures_from(monitors)?;
    let notes = traffic_notes_from(payload);
    sort_departures(&mut departures);
    Ok((departures, notes))
}

/// What normalising a response gives: a text that the JSON parser refuses
/// is a fault, any other is normalised as the tree read from it.
pub open spec fn normalized_response(text: Seq<char>) -> Result<
    (Seq<DepartureView>, Option<Seq<TrafficInfoView>>),
    FeedError,
> {
    match json_document(text) {
        Some(payload) => normalized(payload),
        None => Err(FeedError::JsonParsingFailed),
    }
}

/// Normalises the text of a response of the feed.
pub fn normalize_response(response_text: &str) -> (r: Result<
    (Vec<Departure>, Option<Vec<WienerLinienTrafficInfo>>),
    ApiRequestError,
>)
    ensures
        normalized_view(r) == normalized_response(response_text@),
        r matches Ok((departures, _)) ==> is_sorted(departures.deep_view()),
{
    match parse_json(response_text) {
        Ok(payload) => normalize(&payload),
        Err(message) => Err(ApiRequestError::JsonParsingFailed(message)),
    }
}

} // verus!
