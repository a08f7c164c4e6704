//! The normalised model of the feed: lines, departures and traffic notes.

use std::cmp::Ordering;
use vstd::prelude::*;
use vstd::std_specs::cmp::{PartialEqSpecImpl, PartialOrdSpecImpl};

verus! {

/// The kind of vehicle that serves a line.
#[derive(Clone, Copy, Debug, PartialEq, Eq, Structural)]
pub enum WienerLinienVehicleType {
    Tram,
    Metro,
    CityBus,
    NightBus,
}

/// A point in time in UTC, to the nanosecond.
#[derive(Clone, Copy, Debug, PartialEq, Eq, Structural)]
pub struct Timestamp {
    pub year: i32,
    pub month: u8,
    pub day: u8,
    pub hour: u8,
    pub minute: u8,
    pub second: u8,
    pub nanosecond: u32,
}

/// A line of the network: its kind of vehicle and its name.
#[derive(Clone, Debug)]
pub struct Line {
    pub vehicle_type: WienerLinienVehicleType,
    pub name: String,
}

/// What a `Line` holds, with its name as a sequence of characters.
pub struct LineView {
    pub vehicle_type: WienerLinienVehicleType,
    pub name: Seq<char>,
}

impl DeepView for Line {
    type V = LineView;

    open spec fn deep_view(&self) -> LineView {
        self@
    }
}

impl View for Line {
    type V = LineView;

    open spec fn view(&self) -> LineView {
        LineView { vehicle_type: self.vehicle_type, name: self.name@ }
    }
}

/// One departure of one line from one station.
#[derive(Clone, Debug)]
pub struct Departure {
    pub time_planned: Timestamp,
    pub time_real: Option<Timestamp>,
    pub countdown: i64,
    pub station_name: String,
    pub destination_name: String,
    pub line: Line,
}

/// What a `Departure` holds, with its texts as sequences of characters.
pub struct DepartureView {
    pub time_planned: Timestamp,
    pub time_real: Option<Timestamp>,
    pub countdown: i64,
    pub station_name: Seq<char>,
    pub destination_name: Seq<char>,
    pub line: LineView,
}

impl DeepView for Departure {
    type V = DepartureView;

    open spec fn deep_view(&self) -> DepartureView {
        self@
    }
}

impl View for Departure {
    type V = DepartureView;

    open spec fn view(&self) -> DepartureView {
        DepartureView {
            time_planned: self.time_planned,
            time_real: self.time_real,
            countdown: self.countdown,
            station_name: self.station_name@,
            destination_name: self.destination_name@,
            line: self.line@,
        }
    }
}

impl DepartureView {
    /// Two departures are the same departure where line, destination,
    /// station and planned time agree; countdown and real time do not count.
    pub open spec fn same_departure(self, other: DepartureView) -> bool {
        &&& self.line == other.line
        &&& self.destination_name == other.destination_name
        &&& self.station_name == other.station_name
        &&& self.time_planned == other.time_planned
    }
}

impl PartialEq for Line {
    fn eq(&self, other: &Self) -> (r: bool) {
        self.name == other.name && self.vehicle_type == other.vehicle_type
    }
}

impl Eq for Line {

}

impl PartialEqSpecImpl for Line {
    open spec fn obeys_eq_spec() -> bool {
        true
    }

    open spec fn eq_spec(&self, other: &Self) -> bool {
        self@ == other@
    }
}

impl PartialEq for Departure {
    fn eq(&self, other: &Self) -> (r: bool) {
        self.line == other.line && self.destination_name == other.destination_name
            && self.station_name == other.station_name && self.time_planned == other.time_planned
    }
}

impl Eq for Departure {

}

impl PartialEqSpecImpl for Departure {
    open spec fn obeys_eq_spec() -> bool {
        true
    }

    open spec fn eq_spec(&self, other: &Self) -> bool {
        self@.same_departure(other@)
    }
}

impl PartialOrd for Departure {
    fn partial_cmp(&self, other: &Self) -> (r: Option<Ordering>) {
        if self.countdown < other.countdown {
            Some(Ordering::Less)
        } else if self.countdown > other.countdown {
            Some(Ordering::Greater)
        } else {
            Some(Ordering::Equal)
        }
    }
}

impl PartialOrdSpecImpl for Departure {
    open spec fn obeys_partial_cmp_spec() -> bool {
        true
    }

    open spec fn partial_cmp_spec(&self, other: &Self) -> Option<Ordering> {
        if self.countdown < other.countdown {
            Some(Ordering::Less)
        } else if self.countdown > other.countdown {
            Some(Ordering::Greater)
        } else {
            Some(Ordering::Equal)
        }
    }
}

/// A note on a disruption, shown in turn in the board's footer.
#[derive(Clone, Debug)]
pub struct WienerLinienTrafficInfo {
    pub title: String,
    pub description: String,
    pub priority: Option<String>,
}

/// What a traffic note holds, with its texts as sequences of characters.
pub struct TrafficInfoView {
    pub title: Seq<char>,
    pub description: Seq<char>,
    pub priority: Option<Seq<char>>,
}

impl DeepView for WienerLinienTrafficInfo {
    type V = TrafficInfoView;

    open spec fn deep_view(&self) -> TrafficInfoView {
        self@
    }
}

impl View for WienerLinienTrafficInfo {
    type V = TrafficInfoView;

    open spec fn view(&self) -> TrafficInfoView {
        TrafficInfoView {
            title: self.title@,
            description: self.description@,
            priority: match self.priority {
                Some(p) => Some(p@),
                None => None,
            },
        }
    }
}

} // verus!
