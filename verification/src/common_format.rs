//! Reading of calendar services and of the exceptions to them.

use crate::collection::{has_id, merges, CollectionWithId};
use crate::date::{Date, DateView, ExceptionType};
use crate::error::{ImportError, ImportErrorView};
use crate::model::Collections;
use crate::objects::{Calendar, CalendarView};
use crate::reader::csv_table;
use crate::table::{
    date_field, exception_type_field, runs_through, stops_at, text_field, Column, Table,
    TableView,
};
use vstd::prelude::*;

verus! {

/// The column that holds the identifier of a service.
pub const SERVICE_ID: &'static str = "service_id";

/// The column of the exception file that holds the date.
pub const DATE: &'static str = "date";

/// The column of the exception file that holds the exception type.
pub const EXCEPTION_TYPE: &'static str = "exception_type";

/// A row of the exception file: on `date` the service `service_id` runs, or
/// does not run, against its pattern.
#[derive(Debug, PartialEq, Eq)]
pub struct CalendarDate {
    pub service_id: String,
    pub date: Date,
    pub exception_type: ExceptionType,
}

/// The mathematical content of a [`CalendarDate`].
pub ghost struct CalendarDateView {
    pub service_id: Seq<char>,
    pub date: DateView,
    pub exception_type: ExceptionType,
}

impl View for CalendarDate {
    type V = CalendarDateView;

    open spec fn view(&self) -> CalendarDateView {
        CalendarDateView {
            service_id: self.service_id@,
            date: self.date@,
            exception_type: self.exception_type,
        }
    }
}

/// The views of `calendars`, in their order.
pub open spec fn calendar_views(calendars: Seq<Calendar>) -> Seq<CalendarView> {
    calendars.map_values(|calendar: Calendar| calendar@)
}

/// Whether one of `calendars` has the identifier `id`.
pub open spec fn has_service(calendars: Seq<CalendarView>, id: Seq<char>) -> bool {
    exists|i: int| 0 <= i < calendars.len() && (#[trigger] calendars[i]).id == id
}

/// `calendar` with the exception of `record` behind the exceptions that it
/// has, if `record` is about it; else `calendar` as it is.
pub open spec fn calendar_with(calendar: CalendarView, record: CalendarDateView) -> CalendarView {
    if calendar.id == record.service_id {
        CalendarView {
            id: calendar.id,
            calendar_dates: calendar.calendar_dates.push((record.date, record.exception_type)),
        }
    } else {
        calendar
    }
}

/// `calendars` after the exception of `record` was recorded: the service that
/// it names has it as its last exception, and the other services are as they
/// were. Where it names none of them, all are as they were.
pub open spec fn with_calendar_date(
    calendars: Seq<CalendarView>,
    record: CalendarDateView,
) -> Seq<CalendarView> {
    calendars.map_values(|calendar: CalendarView| calendar_with(calendar, record))
}

/// `calendars` after the exceptions of `records` were recorded, in their
/// order.
pub open spec fn with_calendar_dates(
    calendars: Seq<CalendarView>,
    records: Seq<CalendarDateView>,
) -> Seq<CalendarView>
    decreases records.len(),
{
    if records.len() == 0 {
        calendars
    } else {
        with_calendar_date(with_calendar_dates(calendars, records.drop_last()), records.last())
    }
}

/// The services that `records` name and `calendars` do not hold, one for each
/// such record, in the order of the records.
pub open spec fn unknown_services(
    calendars: Seq<CalendarView>,
    records: Seq<CalendarDateView>,
) -> Seq<Seq<char>>
    decreases records.len(),
{
    if records.len() == 0 {
        Seq::empty()
    } else if has_service(calendars, records.last().service_id) {
        unknown_services(calendars, records.drop_last())
    } else {
        unknown_services(calendars, records.drop_last()).push(records.last().service_id)
    }
}

/// Recording exceptions neither adds a service nor takes one away nor renames
/// one.
pub proof fn lemma_services_stay(calendars: Seq<CalendarView>, records: Seq<CalendarDateView>)
    ensures
        with_calendar_dates(calendars, records).len() == calendars.len(),
        forall|i: int|
            0 <= i < calendars.len() ==> (#[trigger] with_calendar_dates(calendars, records)[i]).id
                == calendars[i].id,
        forall|id: Seq<char>|
            has_service(with_calendar_dates(calendars, records), id) == has_service(calendars, id),
    decreases records.len(),
{
    if records.len() > 0 {
        lemma_services_stay(calendars, records.drop_last());
    }
    let after = with_calendar_dates(calendars, records);
    assert forall|id: Seq<char>| has_service(after, id) == has_service(calendars, id) by {
        if has_service(calendars, id) {
            let i = choose|i: int| 0 <= i < calendars.len() && (#[trigger] calendars[i]).id == id;
            assert(after[i].id == id);
        }
    }
}

/// An exception to a service that is not among `calendars` changes nothing.
pub proof fn lemma_unknown_service_is_passed_over(
    calendars: Seq<CalendarView>,
    record: CalendarDateView,
)
    requires
        !has_service(calendars, record.service_id),
    ensures
        with_calendar_date(calendars, record) == calendars,
{
    assert forall|i: int| 0 <= i < calendars.len() implies calendar_with(
        #[trigger] calendars[i],
        record,
    ) == calendars[i] by {}
}

/// A record among `records` that names a service which is not among
/// `calendars` could as well be left out: every service has the exceptions
/// that the other records give it, in their order.
pub proof fn lemma_unknown_service_leaves_others(
    calendars: Seq<CalendarView>,
    records: Seq<CalendarDateView>,
    at: int,
)
    requires
        0 <= at < records.len(),
        !has_service(calendars, records[at].service_id),
    ensures
        with_calendar_dates(calendars, records) == with_calendar_dates(
            calendars,
            records.remove(at),
        ),
    decreases records.len(),
{
    let rest = records.drop_last();
    if at == records.len() - 1 {
        lemma_services_stay(calendars, rest);
        lemma_unknown_service_is_passed_over(with_calendar_dates(calendars, rest), records[at]);
    } else {
        lemma_unknown_service_leaves_others(calendars, rest, at);
        assert(records.remove(at).drop_last() =~= rest.remove(at));
    }
}

/// Records the exception of `calendar_date` with the service that it names,
/// behind the exceptions which that service has already. Where `collection`
/// holds no such service, nothing is recorded and the answer is `false`.
pub fn insert_calendar_date(
    collection: &mut CollectionWithId<Calendar>,
    calendar_date: CalendarDate,
) -> (recorded: bool)
    requires
        old(collection).wf(),
    ensures
        final(collection).wf(),
        recorded == has_service(calendar_views(old(collection)@), calendar_date.service_id@),
        calendar_views(final(collection)@) == with_calendar_date(
            calendar_views(old(collection)@),
            calendar_date@,
        ),
{
    let ghost before = collection@;
    let ghost record = calendar_date@;
    proof {
        collection.lemma_distinct_ids();
    }
    let idx = match collection.get_idx(calendar_date.service_id.as_str()) {
        Some(idx) => idx,
        None => {
            proof {
                assert forall|i: int| 0 <= i < before.len() implies calendar_with(
                    #[trigger] calendar_views(before)[i],
                    record,
                ) == calendar_views(before)[i] by {}
            }
            return false;
        },
    };
    let calendar = collection.index_mut(idx);
    calendar.calendar_dates.push((calendar_date.date, calendar_date.exception_type));
    proof {
        let after = collection@;
        assert(calendar_views(before)[idx as int].id == record.service_id);
        assert(after[idx as int]@.calendar_dates =~= before[idx as int]@.calendar_dates.push(
            (record.date, record.exception_type),
        ));
        assert forall|i: int| 0 <= i < before.len() implies #[trigger] calendar_views(after)[i]
            == calendar_with(calendar_views(before)[i], record) by {}
    }
    true
}

/// What the row `row` of a service table holds: the identifier of a service.
pub open spec fn calendar_row(table: TableView, row: int) -> Result<Seq<char>, ImportErrorView> {
    text_field(table, row, SERVICE_ID@)
}

/// Whether a row before `row` gives a service with the identifier `id`.
pub open spec fn calendar_before(table: TableView, row: int, id: Seq<char>) -> bool {
    exists|earlier: int|
        0 <= earlier < row && #[trigger] calendar_row(table, earlier) == Ok::<
            Seq<char>,
            ImportErrorView,
        >(id)
}

/// The fault of the row `row` of a service table, if it has one: what stands
/// in the way of reading it or, where nothing does, that an earlier row has
/// taken the identifier.
pub open spec fn calendar_fault(table: TableView, row: int) -> Option<ImportErrorView> {
    match calendar_row(table, row) {
        Err(error) => Some(error),
        Ok(id) => if calendar_before(table, row, id) {
            Some(ImportErrorView::DuplicateIdentifier(id))
        } else {
            None
        },
    }
}

/// For each row of a service table its fault, if it has one.
pub open spec fn calendar_faults(table: TableView) -> Seq<Option<ImportErrorView>> {
    Seq::new(table.rows.len(), |row: int| calendar_fault(table, row))
}

/// The services of a service table of which no row has a fault, each without
/// exceptions.
pub open spec fn calendars_of(table: TableView) -> Seq<CalendarView> {
    Seq::new(
        table.rows.len(),
        |row: int|
            CalendarView { id: calendar_row(table, row)->Ok_0, calendar_dates: Seq::empty() },
    )
}

/// Whether `outcome` is what comes of reading the services of a service
/// table: the rows are taken in their order, each gives the service at its
/// position, and the first row with a fault ends the import with that fault.
pub open spec fn reads_calendars(
    table: TableView,
    outcome: Result<Seq<CalendarView>, ImportErrorView>,
) -> bool {
    match outcome {
        Ok(calendars) => {
            &&& runs_through(calendar_faults(table), table.complete)
            &&& calendars == calendars_of(table)
        },
        Err(error) => stops_at(calendar_faults(table), table.complete, error),
    }
}

/// Reads the services of a service table into a collection. The rows are
/// taken in their order; the first row with a fault ends the import.
pub fn calendars_from_table(table: &Table) -> (outcome: Result<
    CollectionWithId<Calendar>,
    ImportError,
>)
    ensures
        outcome matches Err(ImportError::Csv(text)) ==> table.failure == Some(text),
        outcome matches Ok(calendars) ==> calendars.wf(),
        reads_calendars(
            table@,
            match outcome {
                Ok(calendars) => Ok(calendar_views(calendars@)),
                Err(error) => Err(error@),
            },
        ),
{
    let service = table.column(SERVICE_ID);
    let ghost faults = calendar_faults(table@);
    let mut calendars: CollectionWithId<Calendar> = CollectionWithId::new();
    let mut row: usize = 0;
    while row < table.rows.len()
        invariant
            row <= table.rows.len(),
            table@.rows.len() == table.rows.len(),
            faults == calendar_faults(table@),
            service.finds(table@.header, SERVICE_ID@),
            calendars.wf(),
            calendars@.len() == row,
            forall|k: int| 0 <= k < row ==> faults[k] is None,
            forall|k: int|
                0 <= k < row ==> (#[trigger] calendars@[k])@ == calendars_of(table@)[k]
                    && calendar_row(table@, k) is Ok,
        decreases table.rows.len() - row,
    {
        let id = match table.text(row, &service) {
            Ok(id) => id,
            Err(error) => return Err(error),
        };
        let ghost before = calendars@;
        proof {
            if calendar_before(table@, row as int, id@) {
                let k = choose|k: int|
                    0 <= k < row && #[trigger] calendar_row(table@, k) == Ok::<
                        Seq<char>,
                        ImportErrorView,
                    >(id@);
                assert(before[k].id@ == id@);
            }
        }
        let calendar = Calendar { id, calendar_dates: Vec::new() };
        assert(calendar@.calendar_dates =~= Seq::empty());
        match calendars.push(calendar) {
            Ok(_) => {
                assert(faults[row as int] is None);
            },
            Err(error) => return Err(error),
        }
        row += 1;
    }
    if table.failure.is_some() {
        return Err(table.reader_failure());
    }
    assert(calendar_views(calendars@) =~= calendars_of(table@));
    Ok(calendars)
}

/// What the row `row` of an exception table holds.
pub open spec fn calendar_date_row(table: TableView, row: int) -> Result<
    CalendarDateView,
    ImportErrorView,
> {
    match text_field(table, row, SERVICE_ID@) {
        Err(error) => Err(error),
        Ok(service_id) => match date_field(table, row, DATE@) {
            Err(error) => Err(error),
            Ok(date) => match exception_type_field(table, row, EXCEPTION_TYPE@) {
                Err(error) => Err(error),
                Ok(exception_type) => Ok(CalendarDateView { service_id, date, exception_type }),
            },
        },
    }
}

/// For each row of an exception table its fault, if it has one. That the
/// service of a row is unknown is no fault.
pub open spec fn calendar_date_faults(table: TableView) -> Seq<Option<ImportErrorView>> {
    Seq::new(
        table.rows.len(),
        |row: int|
            match calendar_date_row(table, row) {
                Err(error) => Some(error),
                Ok(_) => None,
            },
    )
}

/// The records of an exception table of which no row has a fault.
pub open spec fn calendar_dates_of(table: TableView) -> Seq<CalendarDateView> {
    Seq::new(table.rows.len(), |row: int| calendar_date_row(table, row)->Ok_0)
}

/// Reads the row `row` of an exception table.
fn decode_calendar_date(
    table: &Table,
    row: usize,
    service: &Column,
    date: &Column,
    kind: &Column,
) -> (outcome: Result<CalendarDate, ImportError>)
    requires
        row < table.rows.len(),
        service.finds(table@.header, SERVICE_ID@),
        date.finds(table@.header, DATE@),
        kind.finds(table@.header, EXCEPTION_TYPE@),
    ensures
        match outcome {
            Ok(record) => calendar_date_row(table@, row as int) == Ok::<
                CalendarDateView,
                ImportErrorView,
            >(record@),
            Err(error) => calendar_date_row(table@, row as int) == Err::<
                CalendarDateView,
                ImportErrorView,
            >(error@),
        },
{
    let service_id = match table.text(row, service) {
        Ok(text) => text,
        Err(error) => return Err(error),
    };
    let date = match table.date(row, date) {
        Ok(date) => date,
        Err(error) => return Err(error),
    };
    let exception_type = match table.exception_type(row, kind) {
        Ok(kind) => kind,
        Err(error) => return Err(error),
    };
    Ok(CalendarDate { service_id, date, exception_type })
}

/// The views of `ids`, in their order.
pub open spec fn id_views(ids: Seq<String>) -> Seq<Seq<char>> {
    ids.map_values(|id: String| id@)
}

/// Whether `after` and `outcome` are what comes of recording the exceptions
/// of an exception table with the services `before`: the rows are taken in
/// their order, a row whose service is unknown is passed over and its service
/// noted, and the first row with a fault ends the import with that fault,
/// behind the exceptions of the rows before it.
pub open spec fn reads_calendar_dates(
    table: TableView,
    before: Seq<CalendarView>,
    after: Seq<CalendarView>,
    outcome: Result<Seq<Seq<char>>, ImportErrorView>,
) -> bool {
    match outcome {
        Ok(unknown) => {
            &&& runs_through(calendar_date_faults(table), table.complete)
            &&& after == with_calendar_dates(before, calendar_dates_of(table))
            &&& unknown == unknown_services(before, calendar_dates_of(table))
        },
        Err(error) => exists|row: int|
            {
                &&& 0 <= row <= table.rows.len()
                &&& forall|earlier: int|
                    0 <= earlier < row ==> calendar_date_faults(table)[earlier] is None
                &&& #[trigger] with_calendar_dates(before, calendar_dates_of(table).take(row))
                    == after
                &&& if row < table.rows.len() {
                    calendar_date_faults(table)[row] == Some(error)
                } else {
                    !table.complete && error is Csv
                }
            },
    }
}

/// Records the exceptions of an exception table with the services of
/// `calendars`. The rows are taken in their order. A row that names a service
/// which `calendars` does not hold is passed over, and the answer lists the
/// service of each such row. The first row with a fault ends the import.
pub fn calendar_dates_from_table(table: &Table, calendars: &mut CollectionWithId<Calendar>) -> (outcome:
    Result<Vec<String>, ImportError>)
    requires
        old(calendars).wf(),
    ensures
        outcome matches Err(ImportError::Csv(text)) ==> table.failure == Some(text),
        final(calendars).wf(),
        reads_calendar_dates(
            table@,
            calendar_views(old(calendars)@),
            calendar_views(final(calendars)@),
            match outcome {
                Ok(unknown) => Ok(id_views(unknown@)),
                Err(error) => Err(error@),
            },
        ),
{
    let service = table.column(SERVICE_ID);
    let date = table.column(DATE);
    let kind = table.column(EXCEPTION_TYPE);
    let ghost faults = calendar_date_faults(table@);
    let ghost records = calendar_dates_of(table@);
    let ghost before = calendar_views(calendars@);
    let mut unknown: Vec<String> = Vec::new();
    let mut row: usize = 0;
    while row < table.rows.len()
        invariant
            row <= table.rows.len(),
            table@.rows.len() == table.rows.len(),
            faults == calendar_date_faults(table@),
            records == calendar_dates_of(table@),
            before == calendar_views(old(calendars)@),
            service.finds(table@.header, SERVICE_ID@),
            date.finds(table@.header, DATE@),
            kind.finds(table@.header, EXCEPTION_TYPE@),
            calendars.wf(),
            forall|k: int| 0 <= k < row ==> faults[k] is None,
            calendar_views(calendars@) == with_calendar_dates(before, records.take(row as int)),
            id_views(unknown@) == unknown_services(before, records.take(row as int)),
        decreases table.rows.len() - row,
    {
        let record = match decode_calendar_date(table, row, &service, &date, &kind) {
            Ok(record) => record,
            Err(error) => return Err(error),
        };
        let service_id = record.service_id.clone();
        proof {
            let next = records.take(row + 1);
            assert(next.drop_last() =~= records.take(row as int));
            lemma_services_stay(before, records.take(row as int));
        }
        if !insert_calendar_date(calendars, record) {
            unknown.push(service_id);
        }
        row += 1;
    }
    if table.failure.is_some() {
        return Err(table.reader_failure());
    }
    assert(records.take(row as int) =~= records);
    Ok(unknown)
}

/// Whether `after` and `outcome` are what comes of importing services, and
/// the exceptions to them if there is a table of them, into the model
/// `before`: the services are read, the exceptions are recorded with them,
/// and the services are merged into the model. The first step that fails
/// ends the import, and before the merge the model is as it was.
pub open spec fn manages_calendars(
    calendars: TableView,
    calendar_dates: Option<TableView>,
    before: Collections,
    after: Collections,
    outcome: Result<Seq<Seq<char>>, ImportErrorView>,
) -> bool {
    if !runs_through(calendar_faults(calendars), calendars.complete) {
        &&& outcome is Err
        &&& stops_at(calendar_faults(calendars), calendars.complete, outcome->Err_0)
        &&& after == before
    } else {
        match calendar_dates {
            Some(table) if !runs_through(calendar_date_faults(table), table.complete) => {
                &&& outcome is Err
                &&& stops_at(calendar_date_faults(table), table.complete, outcome->Err_0)
                &&& after == before
            },
            _ => {
                let records = match calendar_dates {
                    Some(table) => calendar_dates_of(table),
                    None => Seq::empty(),
                };
                exists|read: Seq<Calendar>|
                    {
                        &&& #[trigger] calendar_views(read) == with_calendar_dates(
                            calendars_of(calendars),
                            records,
                        )
                        &&& merges(
                            before.calendars@,
                            read,
                            after.calendars@,
                            match outcome {
                                Ok(_) => Ok(()),
                                Err(error) => Err(error),
                            },
                        )
                        &&& outcome matches Ok(unknown) ==> unknown == unknown_services(
                            calendars_of(calendars),
                            records,
                        )
                    }
            },
        }
    }
}

/// Imports the services of `calendars`, and the exceptions to them of
/// `calendar_dates` where there are any, into `collections`. An exception to
/// a service that `calendars` does not hold is passed over, and the answer
/// lists the service of each such exception.
pub fn manage_calendars(
    collections: &mut Collections,
    calendars: &[u8],
    calendar_dates: Option<&[u8]>,
) -> (outcome: Result<Vec<String>, ImportError>)
    requires
        old(collections).wf(),
    ensures
        final(collections).wf(),
        final(collections).stop_areas == old(collections).stop_areas,
        final(collections).stop_points == old(collections).stop_points,
        manages_calendars(
            csv_table(calendars@),
            match calendar_dates {
                Some(bytes) => Some(csv_table(bytes@)),
                None => None,
            },
            *old(collections),
            *final(collections),
            match outcome {
                Ok(unknown) => Ok(id_views(unknown@)),
                Err(error) => Err(error@),
            },
        ),
{
    let table = Table::read(calendars);
    let mut read = match calendars_from_table(&table) {
        Ok(read) => read,
        Err(error) => return Err(error),
    };
    let unknown = match calendar_dates {
        Some(bytes) => {
            let table = Table::read(bytes);
            match calendar_dates_from_table(&table, &mut read) {
                Ok(unknown) => unknown,
                Err(error) => return Err(error),
            }
        },
        None => {
            let unknown: Vec<String> = Vec::new();
            assert(id_views(unknown@) =~= Seq::empty());
            unknown
        },
    };
    match collections.calendars.try_merge(read) {
        Ok(()) => Ok(unknown),
        Err(error) => Err(error),
    }
}

} // verus!
