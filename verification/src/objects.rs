//! The objects of the transit model that an import fills in.

use crate::collection::Id;
use crate::date::{Date, DateView, ExceptionType};
use crate::decimal::Decimal;
use vstd::prelude::*;

verus! {

/// A geographic position: longitude and latitude in degrees.
#[derive(Debug, PartialEq, Eq)]
pub struct Coord {
    pub lon: Decimal,
    pub lat: Decimal,
}

/// The mathematical content of a [`Coord`].
pub ghost struct CoordView {
    pub lon: Seq<char>,
    pub lat: Seq<char>,
}

impl View for Coord {
    type V = CoordView;

    open spec fn view(&self) -> CoordView {
        CoordView { lon: self.lon@, lat: self.lat@ }
    }
}

impl Clone for Coord {
    fn clone(&self) -> (copy: Self)
        ensures
            copy@ == self@,
    {
        Coord { lon: self.lon.clone(), lat: self.lat.clone() }
    }
}

/// A group of stop points that passengers know under one name.
#[derive(Debug, PartialEq, Eq)]
pub struct StopArea {
    pub id: String,
    pub name: String,
    pub coord: Coord,
}

/// The mathematical content of a [`StopArea`].
pub ghost struct StopAreaView {
    pub id: Seq<char>,
    pub name: Seq<char>,
    pub coord: CoordView,
}

impl View for StopArea {
    type V = StopAreaView;

    open spec fn view(&self) -> StopAreaView {
        StopAreaView { id: self.id@, name: self.name@, coord: self.coord@ }
    }
}

impl Id for StopArea {
    open spec fn spec_id(&self) -> Seq<char> {
        self.id@
    }

    fn id(&self) -> (id: &str) {
        self.id.as_str()
    }
}

/// A place where vehicles stop, within a stop area.
#[derive(Debug, PartialEq, Eq)]
pub struct StopPoint {
    pub id: String,
    pub name: String,
    pub coord: Coord,
    pub stop_area_id: String,
    pub platform_code: Option<String>,
}

/// The mathematical content of a [`StopPoint`].
pub ghost struct StopPointView {
    pub id: Seq<char>,
    pub name: Seq<char>,
    pub coord: CoordView,
    pub stop_area_id: Seq<char>,
    pub platform_code: Option<Seq<char>>,
}

impl View for StopPoint {
    type V = StopPointView;

    open spec fn view(&self) -> StopPointView {
        StopPointView {
            id: self.id@,
            name: self.name@,
            coord: self.coord@,
            stop_area_id: self.stop_area_id@,
            platform_code: match self.platform_code {
                Some(code) => Some(code@),
                None => None,
            },
        }
    }
}

impl Id for StopPoint {
    open spec fn spec_id(&self) -> Seq<char> {
        self.id@
    }

    fn id(&self) -> (id: &str) {
        self.id.as_str()
    }
}

/// A calendar service: the days on which a set of trips runs, here by the
/// exceptions to its pattern, in the order in which they were recorded.
#[derive(Debug, PartialEq, Eq)]
pub struct Calendar {
    pub id: String,
    pub calendar_dates: Vec<(Date, ExceptionType)>,
}

/// The mathematical content of a [`Calendar`].
pub ghost struct CalendarView {
    pub id: Seq<char>,
    pub calendar_dates: Seq<(DateView, ExceptionType)>,
}

impl View for Calendar {
    type V = CalendarView;

    open spec fn view(&self) -> CalendarView {
        CalendarView {
            id: self.id@,
            calendar_dates: self.calendar_dates@.map_values(
                |entry: (Date, ExceptionType)| (entry.0@, entry.1),
            ),
        }
    }
}

impl Id for Calendar {
    open spec fn spec_id(&self) -> Seq<char> {
        self.id@
    }

    fn id(&self) -> (id: &str) {
        self.id.as_str()
    }
}

} // verus!
