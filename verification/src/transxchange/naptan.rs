//! Reading of the NaPTAN data set: stop areas, the stop points of each area,
//! and the stop points themselves.
//! https://en.wikipedia.org/wiki/NaPTAN

use crate::collection::{distinct_ids, has_id, merges, CollectionWithId, Id};
use crate::model::Collections;
use crate::decimal::Decimal;
use crate::error::{ImportError, ImportErrorView};
use crate::objects::{Coord, CoordView, StopArea, StopPoint, StopPointView};
use crate::reader::csv_table;
use crate::table::{
    decimal_field, required_field, runs_through, stops_at, text_field, Column, Table, TableView,
};
use vstd::hash_map::StringHashMap;
use vstd::prelude::*;

verus! {

/// The column of the stop file that holds the code of the stop.
pub const STOP_CODE: &'static str = "ATCOCode";

/// The column of the stop file that holds the name of the stop.
pub const STOP_NAME: &'static str = "CommonName";

/// The column of the stop file that holds the longitude of the stop.
pub const STOP_LONGITUDE: &'static str = "Longitude";

/// The column of the stop file that holds the latitude of the stop.
pub const STOP_LATITUDE: &'static str = "Latitude";

/// The column of the stop file that holds the label of the platform.
pub const STOP_INDICATOR: &'static str = "Indicator";

/// The column of the membership file that holds the code of the stop.
pub const MEMBER_STOP_CODE: &'static str = "AtcoCode";

/// The column of the membership file that holds the code of the area.
pub const MEMBER_AREA_CODE: &'static str = "StopAreaCode";

/// The column of the stop-area file that holds the code of the area.
pub const AREA_CODE: &'static str = "StopAreaCode";

/// The column of the stop-area file that holds the name of the area.
pub const AREA_NAME: &'static str = "Name";

/// The column of the stop-area file that holds the easting of the area.
pub const AREA_EASTING: &'static str = "Easting";

/// The column of the stop-area file that holds the northing of the area.
pub const AREA_NORTHING: &'static str = "Northing";

/// A row of the stop file.
#[derive(Debug, PartialEq, Eq)]
pub struct NaPTANStop {
    pub atco_code: String,
    pub name: String,
    pub longitude: Decimal,
    pub latitude: Decimal,
    pub indicator: String,
}

/// The mathematical content of a [`NaPTANStop`].
pub ghost struct NaPTANStopView {
    pub atco_code: Seq<char>,
    pub name: Seq<char>,
    pub longitude: Seq<char>,
    pub latitude: Seq<char>,
    pub indicator: Seq<char>,
}

impl View for NaPTANStop {
    type V = NaPTANStopView;

    open spec fn view(&self) -> NaPTANStopView {
        NaPTANStopView {
            atco_code: self.atco_code@,
            name: self.name@,
            longitude: self.longitude@,
            latitude: self.latitude@,
            indicator: self.indicator@,
        }
    }
}

/// A row of the membership file: a stop and the area that it belongs to.
#[derive(Debug, PartialEq, Eq)]
pub struct NaPTANStopInArea {
    pub atco_code: String,
    pub stop_area_code: String,
}

/// The mathematical content of a [`NaPTANStopInArea`].
pub ghost struct NaPTANStopInAreaView {
    pub atco_code: Seq<char>,
    pub stop_area_code: Seq<char>,
}

impl View for NaPTANStopInArea {
    type V = NaPTANStopInAreaView;

    open spec fn view(&self) -> NaPTANStopInAreaView {
        NaPTANStopInAreaView {
            atco_code: self.atco_code@,
            stop_area_code: self.stop_area_code@,
        }
    }
}

/// For each stop the area that it belongs to.
pub struct StopsInArea {
    areas: StringHashMap<String>,
}

impl View for StopsInArea {
    type V = Map<Seq<char>, Seq<char>>;

    closed spec fn view(&self) -> Map<Seq<char>, Seq<char>> {
        self.areas@.map_values(|area: String| area@)
    }
}

/// The mapping that `records` make when they are taken in their order: a stop
/// that occurs more than once belongs to the area of its last record.
pub open spec fn membership_of(records: Seq<NaPTANStopInAreaView>) -> Map<Seq<char>, Seq<char>>
    decreases records.len(),
{
    if records.len() == 0 {
        Map::empty()
    } else {
        membership_of(records.drop_last()).insert(
            records.last().atco_code,
            records.last().stop_area_code,
        )
    }
}

impl StopsInArea {
    /// A mapping without stops.
    pub fn new() -> (stops_in_area: Self)
        ensures
            stops_in_area@ == Map::<Seq<char>, Seq<char>>::empty(),
    {
        let stops_in_area = StopsInArea { areas: StringHashMap::new() };
        stops_in_area
    }

    /// Lets the stop `atco_code` belong to the area `stop_area_code`, whatever
    /// area it belonged to before.
    pub fn insert(&mut self, atco_code: String, stop_area_code: String)
        ensures
            final(self)@ == old(self)@.insert(atco_code@, stop_area_code@),
    {
        self.areas.insert(atco_code, stop_area_code);
    }

    /// The area that the stop `atco_code` belongs to, if it is known.
    pub fn get(&self, atco_code: &str) -> (area: Option<&String>)
        ensures
            match area {
                Some(area) => self@.contains_key(atco_code@) && self@[atco_code@] == area@,
                None => !self@.contains_key(atco_code@),
            },
    {
        self.areas.get(atco_code)
    }

    /// The number of stops that belong to an area.
    pub fn len(&self) -> (len: usize)
        ensures
            len == self@.len(),
    {
        assert(self@.dom() =~= self.areas@.dom());
        self.areas.len()
    }

    /// The area that the stop `atco_code` belongs to; an error that names the
    /// stop if none is known.
    pub fn resolve(&self, atco_code: &str) -> (outcome: Result<String, ImportError>)
        ensures
            match outcome {
                Ok(area) => self@.contains_key(atco_code@) && self@[atco_code@] == area@,
                Err(error) => !self@.contains_key(atco_code@) && error@
                    == ImportErrorView::UnresolvedReference(atco_code@),
            },
    {
        match self.get(atco_code) {
            Some(area) => Ok(area.clone()),
            None => Err(ImportError::UnresolvedReference(atco_code.to_owned())),
        }
    }
}

/// The views of `records`, in their order.
pub open spec fn membership_views(records: Seq<NaPTANStopInArea>) -> Seq<NaPTANStopInAreaView> {
    records.map_values(|record: NaPTANStopInArea| record@)
}

/// Makes the mapping from stops to areas of `records`, taken in their order:
/// the last record of a stop decides.
pub fn build_membership(records: &Vec<NaPTANStopInArea>) -> (stops_in_area: StopsInArea)
    ensures
        stops_in_area@ == membership_of(membership_views(records@)),
{
    let mut stops_in_area = StopsInArea::new();
    let ghost views = membership_views(records@);
    let mut i: usize = 0;
    while i < records.len()
        invariant
            i <= records.len(),
            views == membership_views(records@),
            stops_in_area@ == membership_of(views.take(i as int)),
        decreases records.len() - i,
    {
        let record = &records[i];
        proof {
            let next = views.take(i + 1);
            assert(next.drop_last() =~= views.take(i as int));
        }
        stops_in_area.insert(record.atco_code.clone(), record.stop_area_code.clone());
        i += 1;
    }
    assert(views.take(records.len() as int) =~= views);
    stops_in_area
}

/// What the row `row` of a membership table holds.
pub open spec fn stop_in_area_row(table: TableView, row: int) -> Result<
    NaPTANStopInAreaView,
    ImportErrorView,
> {
    match text_field(table, row, MEMBER_STOP_CODE@) {
        Err(error) => Err(error),
        Ok(atco_code) => match text_field(table, row, MEMBER_AREA_CODE@) {
            Err(error) => Err(error),
            Ok(stop_area_code) => Ok(NaPTANStopInAreaView { atco_code, stop_area_code }),
        },
    }
}

/// For each row of a membership table its fault, if it has one.
pub open spec fn stop_in_area_faults(table: TableView) -> Seq<Option<ImportErrorView>> {
    Seq::new(
        table.rows.len(),
        |row: int|
            match stop_in_area_row(table, row) {
                Err(error) => Some(error),
                Ok(_) => None,
            },
    )
}

/// The records of a membership table of which no row has a fault.
pub open spec fn stop_in_area_records(table: TableView) -> Seq<NaPTANStopInAreaView> {
    Seq::new(table.rows.len(), |row: int| stop_in_area_row(table, row)->Ok_0)
}

/// Whether `outcome` is what comes of making the mapping from stops to areas
/// of a membership table: the rows are taken in their order, and the first
/// row with a fault ends the import with that fault.
pub open spec fn reads_stops_in_area(
    table: TableView,
    outcome: Result<Map<Seq<char>, Seq<char>>, ImportErrorView>,
) -> bool {
    match outcome {
        Ok(stops_in_area) => {
            &&& runs_through(stop_in_area_faults(table), table.complete)
            &&& stops_in_area == membership_of(stop_in_area_records(table))
        },
        Err(error) => stops_at(stop_in_area_faults(table), table.complete, error),
    }
}

/// Reads the row `row` of a membership table.
fn decode_stop_in_area(table: &Table, row: usize, stop: &Column, area: &Column) -> (outcome: Result<
    NaPTANStopInArea,
    ImportError,
>)
    requires
        row < table.rows.len(),
        stop.finds(table@.header, MEMBER_STOP_CODE@),
        area.finds(table@.header, MEMBER_AREA_CODE@),
    ensures
        match outcome {
            Ok(record) => stop_in_area_row(table@, row as int) == Ok::<
                NaPTANStopInAreaView,
                ImportErrorView,
            >(record@),
            Err(error) => stop_in_area_row(table@, row as int) == Err::<
                NaPTANStopInAreaView,
                ImportErrorView,
            >(error@),
        },
{
    let atco_code = match table.text(row, stop) {
        Ok(text) => text,
        Err(error) => return Err(error),
    };
    let stop_area_code = match table.text(row, area) {
        Ok(text) => text,
        Err(error) => return Err(error),
    };
    Ok(NaPTANStopInArea { atco_code, stop_area_code })
}

/// Makes the mapping from stops to areas of a membership table. The rows are
/// taken in their order; the first row with a fault ends the import.
pub fn stops_in_area_from_table(table: &Table) -> (outcome: Result<StopsInArea, ImportError>)
    ensures
        outcome matches Err(ImportError::Csv(text)) ==> table.failure == Some(text),
        reads_stops_in_area(
            table@,
            match outcome {
                Ok(stops_in_area) => Ok(stops_in_area@),
                Err(error) => Err(error@),
            },
        ),
{
    let stop = table.column(MEMBER_STOP_CODE);
    let area = table.column(MEMBER_AREA_CODE);
    let ghost faults = stop_in_area_faults(table@);
    let mut records: Vec<NaPTANStopInArea> = Vec::new();
    let mut row: usize = 0;
    while row < table.rows.len()
        invariant
            row <= table.rows.len(),
            table@.rows.len() == table.rows.len(),
            faults == stop_in_area_faults(table@),
            stop.finds(table@.header, MEMBER_STOP_CODE@),
            area.finds(table@.header, MEMBER_AREA_CODE@),
            records@.len() == row,
            forall|k: int| 0 <= k < row ==> faults[k] is None,
            forall|k: int|
                0 <= k < row ==> stop_in_area_row(table@, k) == Ok::<
                    NaPTANStopInAreaView,
                    ImportErrorView,
                >((#[trigger] records@[k])@),
        decreases table.rows.len() - row,
    {
        match decode_stop_in_area(table, row, &stop, &area) {
            Ok(record) => records.push(record),
            Err(error) => {
                assert(faults[row as int] == Some(error@));
                return Err(error);
            },
        }
        row += 1;
    }
    if table.failure.is_some() {
        return Err(table.reader_failure());
    }
    assert(membership_views(records@) =~= stop_in_area_records(table@));
    Ok(build_membership(&records))
}

/// Reads the membership file: for each stop the area that it belongs to.
pub fn read_stops_in_area(bytes: &[u8]) -> (outcome: Result<StopsInArea, ImportError>)
    ensures
        reads_stops_in_area(
            csv_table(bytes@),
            match outcome {
                Ok(stops_in_area) => Ok(stops_in_area@),
                Err(error) => Err(error@),
            },
        ),
{
    let table = Table::read(bytes);
    stops_in_area_from_table(&table)
}

/// What the row `row` of a stop table holds.
pub open spec fn stop_row(table: TableView, row: int) -> Result<NaPTANStopView, ImportErrorView> {
    match required_field(table, row, STOP_CODE@) {
        Err(error) => Err(error),
        Ok(atco_code) => match text_field(table, row, STOP_NAME@) {
            Err(error) => Err(error),
            Ok(name) => match decimal_field(table, row, STOP_LONGITUDE@) {
                Err(error) => Err(error),
                Ok(longitude) => match decimal_field(table, row, STOP_LATITUDE@) {
                    Err(error) => Err(error),
                    Ok(latitude) => match text_field(table, row, STOP_INDICATOR@) {
                        Err(error) => Err(error),
                        Ok(indicator) => Ok(
                            NaPTANStopView { atco_code, name, longitude, latitude, indicator },
                        ),
                    },
                },
            },
        },
    }
}

/// The stop point that `record` describes: its area is the one that
/// `stops_in_area` holds for its code, and without one there is no stop point.
pub open spec fn stop_point_of(
    record: NaPTANStopView,
    stops_in_area: Map<Seq<char>, Seq<char>>,
) -> Result<StopPointView, ImportErrorView> {
    if stops_in_area.contains_key(record.atco_code) {
        Ok(
            StopPointView {
                id: record.atco_code,
                name: record.name,
                coord: CoordView { lon: record.longitude, lat: record.latitude },
                stop_area_id: stops_in_area[record.atco_code],
                platform_code: Some(record.indicator),
            },
        )
    } else {
        Err(ImportErrorView::UnresolvedReference(record.atco_code))
    }
}

/// The stop point of the row `row` of a stop table.
pub open spec fn stop_point_row(
    table: TableView,
    stops_in_area: Map<Seq<char>, Seq<char>>,
    row: int,
) -> Result<StopPointView, ImportErrorView> {
    match stop_row(table, row) {
        Err(error) => Err(error),
        Ok(record) => stop_point_of(record, stops_in_area),
    }
}

/// Whether a row before `row` gives a stop point with the identifier `id`.
pub open spec fn stop_point_before(
    table: TableView,
    stops_in_area: Map<Seq<char>, Seq<char>>,
    row: int,
    id: Seq<char>,
) -> bool {
    exists|earlier: int|
        0 <= earlier < row && #[trigger] stop_point_row(table, stops_in_area, earlier)
            is Ok && stop_point_row(table, stops_in_area, earlier)->Ok_0.id == id
}

/// The fault of the row `row` of a stop table, if it has one: what stands
/// in the way of its stop point or, where nothing does, that an earlier row
/// has taken the identifier.
pub open spec fn stop_point_fault(
    table: TableView,
    stops_in_area: Map<Seq<char>, Seq<char>>,
    row: int,
) -> Option<ImportErrorView> {
    match stop_point_row(table, stops_in_area, row) {
        Err(error) => Some(error),
        Ok(point) => if stop_point_before(table, stops_in_area, row, point.id) {
            Some(ImportErrorView::DuplicateIdentifier(point.id))
        } else {
            None
        },
    }
}

/// For each row of a stop table its fault, if it has one.
pub open spec fn stop_point_faults(
    table: TableView,
    stops_in_area: Map<Seq<char>, Seq<char>>,
) -> Seq<Option<ImportErrorView>> {
    Seq::new(table.rows.len(), |row: int| stop_point_fault(table, stops_in_area, row))
}

/// The views of `points`, in their order.
pub open spec fn stop_point_views(points: Seq<StopPoint>) -> Seq<StopPointView> {
    points.map_values(|point: StopPoint| point@)
}

/// Whether `outcome` is what comes of reading the stop points of a stop
/// table: the rows are taken in their order, each gives the stop point at its
/// position, and the first row with a fault ends the import with that fault.
pub open spec fn reads_stops(
    table: TableView,
    stops_in_area: Map<Seq<char>, Seq<char>>,
    outcome: Result<Seq<StopPointView>, ImportErrorView>,
) -> bool {
    match outcome {
        Ok(points) => {
            &&& runs_through(stop_point_faults(table, stops_in_area), table.complete)
            &&& points.len() == table.rows.len()
            &&& forall|row: int|
                0 <= row < points.len() ==> stop_point_row(table, stops_in_area, row) == Ok::<
                    StopPointView,
                    ImportErrorView,
                >(#[trigger] points[row])
        },
        Err(error) => stops_at(stop_point_faults(table, stops_in_area), table.complete, error),
    }
}

/// Reads the row `row` of a stop table.
fn decode_stop(
    table: &Table,
    row: usize,
    code: &Column,
    name: &Column,
    longitude: &Column,
    latitude: &Column,
    indicator: &Column,
) -> (outcome: Result<NaPTANStop, ImportError>)
    requires
        row < table.rows.len(),
        code.finds(table@.header, STOP_CODE@),
        name.finds(table@.header, STOP_NAME@),
        longitude.finds(table@.header, STOP_LONGITUDE@),
        latitude.finds(table@.header, STOP_LATITUDE@),
        indicator.finds(table@.header, STOP_INDICATOR@),
    ensures
        match outcome {
            Ok(record) => stop_row(table@, row as int) == Ok::<NaPTANStopView, ImportErrorView>(
                record@,
            ),
            Err(error) => stop_row(table@, row as int) == Err::<NaPTANStopView, ImportErrorView>(
                error@,
            ),
        },
{
    let atco_code = match table.required(row, code) {
        Ok(text) => text,
        Err(error) => return Err(error),
    };
    let name = match table.text(row, name) {
        Ok(text) => text,
        Err(error) => return Err(error),
    };
    let longitude = match table.decimal(row, longitude) {
        Ok(number) => number,
        Err(error) => return Err(error),
    };
    let latitude = match table.decimal(row, latitude) {
        Ok(number) => number,
        Err(error) => return Err(error),
    };
    let indicator = match table.text(row, indicator) {
        Ok(text) => text,
        Err(error) => return Err(error),
    };
    Ok(NaPTANStop { atco_code, name, longitude, latitude, indicator })
}

/// Makes the stop point that `record` describes, in the area that
/// `stops_in_area` holds for it; an error that names the stop if it holds
/// none.
pub fn stop_point_from(record: NaPTANStop, stops_in_area: &StopsInArea) -> (outcome: Result<
    StopPoint,
    ImportError,
>)
    ensures
        match outcome {
            Ok(point) => stop_point_of(record@, stops_in_area@) == Ok::<
                StopPointView,
                ImportErrorView,
            >(point@),
            Err(error) => stop_point_of(record@, stops_in_area@) == Err::<
                StopPointView,
                ImportErrorView,
            >(error@),
        },
{
    let stop_area_id = match stops_in_area.resolve(record.atco_code.as_str()) {
        Ok(area) => area,
        Err(error) => return Err(error),
    };
    Ok(
        StopPoint {
            id: record.atco_code,
            name: record.name,
            coord: Coord { lon: record.longitude, lat: record.latitude },
            stop_area_id,
            platform_code: Some(record.indicator),
        },
    )
}

/// Reads the stop points of a stop table into a collection. The rows are
/// taken in their order; the first row with a fault ends the import.
pub fn stops_from_table(table: &Table, stops_in_area: &StopsInArea) -> (outcome: Result<
    CollectionWithId<StopPoint>,
    ImportError,
>)
    ensures
        outcome matches Err(ImportError::Csv(text)) ==> table.failure == Some(text),
        outcome matches Ok(points) ==> points.wf(),
        reads_stops(
            table@,
            stops_in_area@,
            match outcome {
                Ok(points) => Ok(stop_point_views(points@)),
                Err(error) => Err(error@),
            },
        ),
{
    let code = table.column(STOP_CODE);
    let name = table.column(STOP_NAME);
    let longitude = table.column(STOP_LONGITUDE);
    let latitude = table.column(STOP_LATITUDE);
    let indicator = table.column(STOP_INDICATOR);
    let ghost faults = stop_point_faults(table@, stops_in_area@);
    let mut points: CollectionWithId<StopPoint> = CollectionWithId::new();
    let mut row: usize = 0;
    while row < table.rows.len()
        invariant
            row <= table.rows.len(),
            table@.rows.len() == table.rows.len(),
            faults == stop_point_faults(table@, stops_in_area@),
            code.finds(table@.header, STOP_CODE@),
            name.finds(table@.header, STOP_NAME@),
            longitude.finds(table@.header, STOP_LONGITUDE@),
            latitude.finds(table@.header, STOP_LATITUDE@),
            indicator.finds(table@.header, STOP_INDICATOR@),
            points.wf(),
            points@.len() == row,
            forall|k: int| 0 <= k < row ==> faults[k] is None,
            forall|k: int|
                0 <= k < row ==> stop_point_row(table@, stops_in_area@, k) == Ok::<
                    StopPointView,
                    ImportErrorView,
                >((#[trigger] points@[k])@),
        decreases table.rows.len() - row,
    {
        let record = match decode_stop(table, row, &code, &name, &longitude, &latitude, &indicator) {
            Ok(record) => record,
            Err(error) => return Err(error),
        };
        let point = match stop_point_from(record, stops_in_area) {
            Ok(point) => point,
            Err(error) => return Err(error),
        };
        let ghost id = point@.id;
        let ghost before = points@;
        proof {
            if stop_point_before(table@, stops_in_area@, row as int, id) {
                let k = choose|k: int|
                    0 <= k < row && #[trigger] stop_point_row(table@, stops_in_area@, k) is Ok
                        && stop_point_row(table@, stops_in_area@, k)->Ok_0.id == id;
                assert(before[k].id@ == id);
            }
        }
        match points.push(point) {
            Ok(_) => {
                assert(faults[row as int] is None);
            },
            Err(error) => return Err(error),
        }
        row += 1;
    }
    if table.failure.is_some() {
        return Err(table.reader_failure());
    }
    proof {
        let views = stop_point_views(points@);
        assert forall|k: int| 0 <= k < views.len() implies stop_point_row(
            table@,
            stops_in_area@,
            k,
        ) == Ok::<StopPointView, ImportErrorView>(#[trigger] views[k]) by {}
    }
    Ok(points)
}

/// Reads the stop file: the stop points, each in the area that
/// `stops_in_area` holds for it.
pub fn read_stops(bytes: &[u8], stops_in_area: &StopsInArea) -> (outcome: Result<
    CollectionWithId<StopPoint>,
    ImportError,
>)
    ensures
        outcome matches Ok(points) ==> points.wf(),
        reads_stops(
            csv_table(bytes@),
            stops_in_area@,
            match outcome {
                Ok(points) => Ok(stop_point_views(points@)),
                Err(error) => Err(error@),
            },
        ),
{
    let table = Table::read(bytes);
    stops_from_table(&table, stops_in_area)
}

/// A row of the stop-area file.
#[derive(Debug, PartialEq, Eq)]
pub struct NaPTANStopArea {
    pub stop_area_code: String,
    pub name: String,
    pub easting: Decimal,
    pub northing: Decimal,
}

/// The mathematical content of a [`NaPTANStopArea`].
pub ghost struct NaPTANStopAreaView {
    pub stop_area_code: Seq<char>,
    pub name: Seq<char>,
    pub easting: Seq<char>,
    pub northing: Seq<char>,
}

impl View for NaPTANStopArea {
    type V = NaPTANStopAreaView;

    open spec fn view(&self) -> NaPTANStopAreaView {
        NaPTANStopAreaView {
            stop_area_code: self.stop_area_code@,
            name: self.name@,
            easting: self.easting@,
            northing: self.northing@,
        }
    }
}

/// What the row `row` of a stop-area table holds.
pub open spec fn stop_area_row(table: TableView, row: int) -> Result<
    NaPTANStopAreaView,
    ImportErrorView,
> {
    match required_field(table, row, AREA_CODE@) {
        Err(error) => Err(error),
        Ok(stop_area_code) => match text_field(table, row, AREA_NAME@) {
            Err(error) => Err(error),
            Ok(name) => match decimal_field(table, row, AREA_EASTING@) {
                Err(error) => Err(error),
                Ok(easting) => match decimal_field(table, row, AREA_NORTHING@) {
                    Err(error) => Err(error),
                    Ok(northing) => Ok(
                        NaPTANStopAreaView { stop_area_code, name, easting, northing },
                    ),
                },
            },
        },
    }
}

/// Reads the row `row` of a stop-area table.
fn decode_stop_area(
    table: &Table,
    row: usize,
    code: &Column,
    name: &Column,
    easting: &Column,
    northing: &Column,
) -> (outcome: Result<NaPTANStopArea, ImportError>)
    requires
        row < table.rows.len(),
        code.finds(table@.header, AREA_CODE@),
        name.finds(table@.header, AREA_NAME@),
        easting.finds(table@.header, AREA_EASTING@),
        northing.finds(table@.header, AREA_NORTHING@),
    ensures
        match outcome {
            Ok(record) => stop_area_row(table@, row as int) == Ok::<
                NaPTANStopAreaView,
                ImportErrorView,
            >(record@),
            Err(error) => stop_area_row(table@, row as int) == Err::<
                NaPTANStopAreaView,
                ImportErrorView,
            >(error@),
        },
{
    let stop_area_code = match table.required(row, code) {
        Ok(text) => text,
        Err(error) => return Err(error),
    };
    let name = match table.text(row, name) {
        Ok(text) => text,
        Err(error) => return Err(error),
    };
    let easting = match table.decimal(row, easting) {
        Ok(number) => number,
        Err(error) => return Err(error),
    };
    let northing = match table.decimal(row, northing) {
        Ok(number) => number,
        Err(error) => return Err(error),
    };
    Ok(NaPTANStopArea { stop_area_code, name, easting, northing })
}

/// Whether `answer` is what the projection `project` can answer when it is
/// asked for the geographic position of the planar coordinate with the
/// easting `easting` and the northing `northing`.
pub open spec fn projects<F: Fn(&Decimal, &Decimal) -> Option<Coord>>(
    project: F,
    easting: Seq<char>,
    northing: Seq<char>,
    answer: Option<Coord>,
) -> bool {
    exists|e: Decimal, n: Decimal|
        e@ == easting && n@ == northing && #[trigger] call_ensures(project, (&e, &n), answer)
}

/// Puts the stop area of the row `row`, which holds `record`, into
/// `stop_areas`, at the position that the projection answered with. Without
/// an answer, or with an identifier that is taken, the collection stays as it
/// is.
pub fn add_stop_area(
    stop_areas: &mut CollectionWithId<StopArea>,
    row: usize,
    record: NaPTANStopArea,
    projected: Option<Coord>,
) -> (outcome: Result<(), ImportError>)
    requires
        old(stop_areas).wf(),
    ensures
        final(stop_areas).wf(),
        match outcome {
            Ok(()) => {
                &&& projected matches Some(coord)
                &&& !has_id(old(stop_areas)@, record.stop_area_code@)
                &&& final(stop_areas)@ == old(stop_areas)@.push(
                    StopArea { id: record.stop_area_code, name: record.name, coord },
                )
            },
            Err(error) => {
                &&& final(stop_areas)@ == old(stop_areas)@
                &&& match projected {
                    None => error@ == (ImportErrorView::Projection { row: row as int }),
                    Some(_) => {
                        &&& has_id(old(stop_areas)@, record.stop_area_code@)
                        &&& error@ == ImportErrorView::DuplicateIdentifier(
                            record.stop_area_code@,
                        )
                    },
                }
            },
        },
{
    let coord = match projected {
        Some(coord) => coord,
        None => return Err(ImportError::Projection { row }),
    };
    let stop_area = StopArea { id: record.stop_area_code, name: record.name, coord };
    match stop_areas.push(stop_area) {
        Ok(_) => Ok(()),
        Err(error) => Err(error),
    }
}

/// Whether `area` is a stop area that the row `row` of a stop-area table
/// gives: the row holds its identifier and its name, and `project` can answer
/// with its position for the planar coordinate of the row.
pub open spec fn area_passes<F: Fn(&Decimal, &Decimal) -> Option<Coord>>(
    table: TableView,
    project: F,
    row: int,
    area: StopArea,
) -> bool {
    &&& stop_area_row(table, row) is Ok
    &&& area.id@ == stop_area_row(table, row)->Ok_0.stop_area_code
    &&& area.name@ == stop_area_row(table, row)->Ok_0.name
    &&& projects(
        project,
        stop_area_row(table, row)->Ok_0.easting,
        stop_area_row(table, row)->Ok_0.northing,
        Some(area.coord),
    )
}

/// Whether `error` is a fault of the row `row` of a stop-area table, behind
/// rows that gave `areas`: what stands in the way of reading the row; that
/// `project` can answer with no position for it; or, where it can answer with
/// one, that one of `areas` has the identifier of the row.
pub open spec fn area_fails<F: Fn(&Decimal, &Decimal) -> Option<Coord>>(
    table: TableView,
    project: F,
    areas: Seq<StopArea>,
    row: int,
    error: ImportErrorView,
) -> bool {
    match stop_area_row(table, row) {
        Err(fault) => error == fault,
        Ok(record) => {
            ||| {
                &&& projects(project, record.easting, record.northing, None)
                &&& error == (ImportErrorView::Projection { row })
            }
            ||| {
                &&& exists|coord: Coord|
                    #[trigger] projects(project, record.easting, record.northing, Some(coord))
                &&& has_id(areas, record.stop_area_code)
                &&& error == ImportErrorView::DuplicateIdentifier(record.stop_area_code)
            }
        },
    }
}

/// Whether every one of `areas` is a stop area that the row at its position
/// gives, and no two of them have the same identifier.
pub open spec fn areas_pass<F: Fn(&Decimal, &Decimal) -> Option<Coord>>(
    table: TableView,
    project: F,
    areas: Seq<StopArea>,
) -> bool {
    &&& areas.len() <= table.rows.len()
    &&& distinct_ids(areas)
    &&& forall|row: int|
        0 <= row < areas.len() ==> area_passes(table, project, row, #[trigger] areas[row])
}

/// Whether `outcome` is what comes of reading the stop areas of a stop-area
/// table with the projection `project`: the rows are taken in their order,
/// each gives the stop area at its position, and the first row with a fault
/// ends the import with that fault.
pub open spec fn reads_stop_areas<F: Fn(&Decimal, &Decimal) -> Option<Coord>>(
    table: TableView,
    project: F,
    outcome: Result<Seq<StopArea>, ImportErrorView>,
) -> bool {
    match outcome {
        Ok(areas) => {
            &&& table.complete
            &&& areas.len() == table.rows.len()
            &&& areas_pass(table, project, areas)
        },
        Err(error) => exists|areas: Seq<StopArea>|
            {
                &&& #[trigger] areas_pass(table, project, areas)
                &&& if areas.len() < table.rows.len() {
                    area_fails(table, project, areas, areas.len() as int, error)
                } else {
                    !table.complete && error is Csv
                }
            },
    }
}

/// Reads the stop areas of a stop-area table into a collection; `project`
/// gives the geographic position of each. The rows are taken in their order;
/// the first row with a fault ends the import.
pub fn stop_areas_from_table<F: Fn(&Decimal, &Decimal) -> Option<Coord>>(
    table: &Table,
    project: F,
) -> (outcome: Result<CollectionWithId<StopArea>, ImportError>)
    requires
        forall|easting: &Decimal, northing: &Decimal|
            #[trigger] call_requires(project, (easting, northing)),
    ensures
        outcome matches Err(ImportError::Csv(text)) ==> table.failure == Some(text),
        outcome matches Ok(areas) ==> areas.wf(),
        reads_stop_areas(
            table@,
            project,
            match outcome {
                Ok(areas) => Ok(areas@),
                Err(error) => Err(error@),
            },
        ),
{
    let code = table.column(AREA_CODE);
    let name = table.column(AREA_NAME);
    let easting = table.column(AREA_EASTING);
    let northing = table.column(AREA_NORTHING);
    let mut areas: CollectionWithId<StopArea> = CollectionWithId::new();
    let mut row: usize = 0;
    while row < table.rows.len()
        invariant
            row <= table.rows.len(),
            table@.rows.len() == table.rows.len(),
            forall|easting: &Decimal, northing: &Decimal|
                #[trigger] call_requires(project, (easting, northing)),
            code.finds(table@.header, AREA_CODE@),
            name.finds(table@.header, AREA_NAME@),
            easting.finds(table@.header, AREA_EASTING@),
            northing.finds(table@.header, AREA_NORTHING@),
            areas.wf(),
            areas@.len() == row,
            areas_pass(table@, project, areas@),
        decreases table.rows.len() - row,
    {
        let record = match decode_stop_area(table, row, &code, &name, &easting, &northing) {
            Ok(record) => record,
            Err(error) => return Err(error),
        };
        let answer = project(&record.easting, &record.northing);
        assert(projects(project, record@.easting, record@.northing, answer));
        match add_stop_area(&mut areas, row, record, answer) {
            Ok(()) => {
                proof {
                    areas.lemma_distinct_ids();
                }
            },
            Err(error) => return Err(error),
        }
        row += 1;
    }
    if table.failure.is_some() {
        return Err(table.reader_failure());
    }
    Ok(areas)
}

/// Reads the stop-area file: the stop areas, each at the geographic position
/// that `project` gives for its planar coordinate.
pub fn read_stop_areas<F: Fn(&Decimal, &Decimal) -> Option<Coord>>(bytes: &[u8], project: F) -> (outcome:
    Result<CollectionWithId<StopArea>, ImportError>)
    requires
        forall|easting: &Decimal, northing: &Decimal|
            #[trigger] call_requires(project, (easting, northing)),
    ensures
        outcome matches Ok(areas) ==> areas.wf(),
        reads_stop_areas(
            csv_table(bytes@),
            project,
            match outcome {
                Ok(areas) => Ok(areas@),
                Err(error) => Err(error@),
            },
        ),
{
    let table = Table::read(bytes);
    stop_areas_from_table(&table, project)
}

/// Checks the stop areas and stop points of an import against each other
/// before they are merged. No stop area and no stop point is refused.
pub fn validate_stops(
    stop_areas: &CollectionWithId<StopArea>,
    stop_points: &CollectionWithId<StopPoint>,
) -> (outcome: Result<(), ImportError>)
    ensures
        outcome is Ok,
{
    Ok(())
}

/// Whether `areas`, `members` and `points` are what comes of the three
/// reading steps of an import, each of which is taken only if the one before
/// it succeeded: the stop areas of `stop_areas`, the mapping from stops to
/// areas of `stops_in_area`, and the stop points of `stops`.
pub open spec fn naptan_steps<F: Fn(&Decimal, &Decimal) -> Option<Coord>>(
    stop_areas: TableView,
    stops_in_area: TableView,
    stops: TableView,
    project: F,
    areas: Result<Seq<StopArea>, ImportErrorView>,
    members: Result<Map<Seq<char>, Seq<char>>, ImportErrorView>,
    points: Result<Seq<StopPoint>, ImportErrorView>,
) -> bool {
    &&& reads_stop_areas(stop_areas, project, areas)
    &&& areas is Ok ==> reads_stops_in_area(stops_in_area, members)
    &&& areas is Ok && members is Ok ==> reads_stops(
        stops,
        members->Ok_0,
        match points {
            Ok(points) => Ok(stop_point_views(points)),
            Err(error) => Err(error),
        },
    )
}

/// Whether `after` and `outcome` are what comes of merging stop areas and
/// stop points that were read into the model `before`: the stop areas first
/// and, unless one of them clashes, the stop points.
pub open spec fn merges_stops(
    before: Collections,
    areas: Seq<StopArea>,
    points: Seq<StopPoint>,
    after: Collections,
    outcome: Result<(), ImportErrorView>,
) -> bool {
    if forall|k: int| !crate::collection::clashes(before.stop_areas@, areas, k) {
        &&& after.stop_areas@ == before.stop_areas@ + areas
        &&& merges(before.stop_points@, points, after.stop_points@, outcome)
    } else {
        &&& outcome is Err
        &&& merges(before.stop_areas@, areas, after.stop_areas@, outcome)
        &&& after.stop_points@ == before.stop_points@
    }
}

/// Whether `after` and `outcome` are what an import ends with whose reading
/// steps came to `areas`, `members` and `points`: the error of the first step
/// that failed, with the model as it was; else the merge of what was read.
pub open spec fn naptan_ends(
    before: Collections,
    areas: Result<Seq<StopArea>, ImportErrorView>,
    members: Result<Map<Seq<char>, Seq<char>>, ImportErrorView>,
    points: Result<Seq<StopPoint>, ImportErrorView>,
    after: Collections,
    outcome: Result<(), ImportErrorView>,
) -> bool {
    match areas {
        Err(error) => outcome == Err::<(), ImportErrorView>(error) && after == before,
        Ok(areas) => match members {
            Err(error) => outcome == Err::<(), ImportErrorView>(error) && after == before,
            Ok(_) => match points {
                Err(error) => outcome == Err::<(), ImportErrorView>(error) && after == before,
                Ok(points) => merges_stops(before, areas, points, after, outcome),
            },
        },
    }
}

/// Whether `after` and `outcome` are what comes of importing the three
/// tables of a NaPTAN data set into the model `before`.
pub open spec fn reads_naptan<F: Fn(&Decimal, &Decimal) -> Option<Coord>>(
    stop_areas: TableView,
    stops_in_area: TableView,
    stops: TableView,
    project: F,
    before: Collections,
    after: Collections,
    outcome: Result<(), ImportErrorView>,
) -> bool {
    exists|
        areas: Result<Seq<StopArea>, ImportErrorView>,
        members: Result<Map<Seq<char>, Seq<char>>, ImportErrorView>,
        points: Result<Seq<StopPoint>, ImportErrorView>,
    |
        {
            &&& #[trigger] naptan_steps(
                stop_areas,
                stops_in_area,
                stops,
                project,
                areas,
                members,
                points,
            )
            &&& naptan_ends(before, areas, members, points, after, outcome)
        }
}

/// Imports a NaPTAN data set into `collections`: reads the stop areas of
/// `stop_areas`, with `project` for their geographic positions, the mapping
/// from stops to areas of `stops_in_area` and the stop points of `stops`,
/// and merges the stop areas and the stop points into the model. The first
/// step that fails ends the import.
pub fn read_naptan<F: Fn(&Decimal, &Decimal) -> Option<Coord>>(
    stop_areas: &[u8],
    stops_in_area: &[u8],
    stops: &[u8],
    project: F,
    collections: &mut Collections,
) -> (outcome: Result<(), ImportError>)
    requires
        old(collections).wf(),
        forall|easting: &Decimal, northing: &Decimal|
            #[trigger] call_requires(project, (easting, northing)),
    ensures
        final(collections).wf(),
        final(collections).calendars == old(collections).calendars,
        reads_naptan(
            csv_table(stop_areas@),
            csv_table(stops_in_area@),
            csv_table(stops@),
            project,
            *old(collections),
            *final(collections),
            match outcome {
                Ok(()) => Ok(()),
                Err(error) => Err(error@),
            },
        ),
{
    let ghost no_members: Result<Map<Seq<char>, Seq<char>>, ImportErrorView> = Ok(Map::empty());
    let ghost no_points: Result<Seq<StopPoint>, ImportErrorView> = Ok(Seq::empty());
    let areas = match read_stop_areas(stop_areas, project) {
        Ok(areas) => areas,
        Err(error) => {
            assert(naptan_steps(
                csv_table(stop_areas@),
                csv_table(stops_in_area@),
                csv_table(stops@),
                project,
                Err(error@),
                no_members,
                no_points,
            ));
            return Err(error);
        },
    };
    let members = match read_stops_in_area(stops_in_area) {
        Ok(members) => members,
        Err(error) => {
            assert(naptan_steps(
                csv_table(stop_areas@),
                csv_table(stops_in_area@),
                csv_table(stops@),
                project,
                Ok(areas@),
                Err(error@),
                no_points,
            ));
            return Err(error);
        },
    };
    let points = match read_stops(stops, &members) {
        Ok(points) => points,
        Err(error) => {
            assert(naptan_steps(
                csv_table(stop_areas@),
                csv_table(stops_in_area@),
                csv_table(stops@),
                project,
                Ok(areas@),
                Ok(members@),
                Err(error@),
            ));
            return Err(error);
        },
    };
    match validate_stops(&areas, &points) {
        Ok(()) => {},
        Err(error) => return Err(error),
    }
    assert(naptan_steps(
        csv_table(stop_areas@),
        csv_table(stops_in_area@),
        csv_table(stops@),
        project,
        Ok(areas@),
        Ok(members@),
        Ok(points@),
    ));
    match collections.stop_areas.try_merge(areas) {
        Ok(()) => {},
        Err(error) => return Err(error),
    }
    collections.stop_points.try_merge(points)
}

/// Where every row of a complete stop-area table can be read, no two rows
/// have the same code, and the projection has a position for every row, the
/// import succeeds: there are as many stop areas as rows, and each stands at
/// the position that the projection gives for the planar coordinate of its
/// row.
pub proof fn lemma_valid_stop_areas_are_read<F: Fn(&Decimal, &Decimal) -> Option<Coord>>(
    table: TableView,
    project: F,
    outcome: Result<Seq<StopArea>, ImportErrorView>,
)
    requires
        reads_stop_areas(table, project, outcome),
        table.complete,
        forall|row: int| 0 <= row < table.rows.len() ==> #[trigger] stop_area_row(table, row) is Ok,
        forall|row: int, other: int|
            0 <= row < other < table.rows.len() ==> (#[trigger] stop_area_row(
                table,
                row,
            ))->Ok_0.stop_area_code != (#[trigger] stop_area_row(table, other))->Ok_0.stop_area_code,
        forall|row: int|
            0 <= row < table.rows.len() ==> !projects(
                project,
                (#[trigger] stop_area_row(table, row))->Ok_0.easting,
                stop_area_row(table, row)->Ok_0.northing,
                None,
            ),
    ensures
        outcome is Ok,
        outcome->Ok_0.len() == table.rows.len(),
        forall|row: int|
            0 <= row < table.rows.len() ==> projects(
                project,
                stop_area_row(table, row)->Ok_0.easting,
                stop_area_row(table, row)->Ok_0.northing,
                Some((#[trigger] outcome->Ok_0[row]).coord),
            ),
{
    match outcome {
        Ok(areas) => {
            assert forall|row: int| 0 <= row < table.rows.len() implies projects(
                project,
                stop_area_row(table, row)->Ok_0.easting,
                stop_area_row(table, row)->Ok_0.northing,
                Some((#[trigger] areas[row]).coord),
            ) by {
                assert(area_passes(table, project, row, areas[row]));
            }
        },
        Err(error) => {
            let areas = choose|areas: Seq<StopArea>|
                {
                    &&& #[trigger] areas_pass(table, project, areas)
                    &&& if areas.len() < table.rows.len() {
                        area_fails(table, project, areas, areas.len() as int, error)
                    } else {
                        !table.complete && error is Csv
                    }
                };
            let row = areas.len() as int;
            assert(stop_area_row(table, row) is Ok);
            let code = stop_area_row(table, row)->Ok_0.stop_area_code;
            if has_id(areas, code) {
                let k = choose|k: int| 0 <= k < areas.len() && (#[trigger] areas[k]).spec_id() == code;
                assert(area_passes(table, project, k, areas[k]));
                assert(stop_area_row(table, k)->Ok_0.stop_area_code == code);
            }
        },
    }
}

/// Two rows of a stop-area table with the same code make the import fail,
/// whatever else the rows of the table hold.
pub proof fn lemma_repeated_stop_area_fails<F: Fn(&Decimal, &Decimal) -> Option<Coord>>(
    table: TableView,
    project: F,
    outcome: Result<Seq<StopArea>, ImportErrorView>,
    row: int,
    other: int,
)
    requires
        reads_stop_areas(table, project, outcome),
        0 <= row < other < table.rows.len(),
        crate::table::field_of(table, row, AREA_CODE@) == crate::table::field_of(
            table,
            other,
            AREA_CODE@,
        ),
    ensures
        outcome is Err,
{
    if let Ok(areas) = outcome {
        assert(areas[row].spec_id() == areas[other].spec_id());
    }
}

/// A row of a stop table whose stop has no area in the mapping makes the
/// import fail. Where the row can be read and no row before it has a fault,
/// the error is the unresolved reference, and it names the stop.
pub proof fn lemma_unresolved_stop_fails(
    table: TableView,
    stops_in_area: Map<Seq<char>, Seq<char>>,
    outcome: Result<Seq<StopPointView>, ImportErrorView>,
    row: int,
)
    requires
        reads_stops(table, stops_in_area, outcome),
        0 <= row < table.rows.len(),
        crate::table::field_of(table, row, STOP_CODE@) matches Some(code)
            && !stops_in_area.contains_key(code),
    ensures
        outcome is Err,
        stop_row(table, row) is Ok && (forall|earlier: int|
            0 <= earlier < row ==> stop_point_fault(table, stops_in_area, earlier) is None)
            ==> outcome == Err::<Seq<StopPointView>, ImportErrorView>(
            ImportErrorView::UnresolvedReference(stop_row(table, row)->Ok_0.atco_code),
        ),
{
    let faults = stop_point_faults(table, stops_in_area);
    assert(faults[row] is Some);
    if stop_row(table, row) is Ok && forall|earlier: int|
        0 <= earlier < row ==> stop_point_fault(table, stops_in_area, earlier) is None {
        let unresolved = ImportErrorView::UnresolvedReference(
            stop_row(table, row)->Ok_0.atco_code,
        );
        assert(faults[row] == Some(unresolved));
        let error = outcome->Err_0;
        let first = choose|first: int|
            {
                &&& 0 <= first < faults.len()
                &&& #[trigger] faults[first] == Some(error)
                &&& forall|earlier: int| 0 <= earlier < first ==> faults[earlier] is None
            };
        if first < row {
            assert(faults[first] == stop_point_fault(table, stops_in_area, first));
        }
    }
}

/// Every stop point of an import that succeeded lies in the area that the
/// mapping holds for it.
pub proof fn lemma_stop_points_lie_in_their_areas(
    table: TableView,
    stops_in_area: Map<Seq<char>, Seq<char>>,
    points: Seq<StopPointView>,
    row: int,
)
    requires
        reads_stops(table, stops_in_area, Ok(points)),
        0 <= row < points.len(),
    ensures
        stops_in_area.contains_key(points[row].id),
        points[row].stop_area_id == stops_in_area[points[row].id],
{
}

} // verus!
