use transit_model::collection::CollectionWithId;
use transit_model::common_format::{
    calendar_dates_from_table, calendars_from_table, insert_calendar_date, manage_calendars,
    CalendarDate,
};
use transit_model::date::{Date, ExceptionType};
use transit_model::error::ImportError;
use transit_model::model::Collections;
use transit_model::objects::Calendar;
use transit_model::table::Table;

fn date(year: u16, month: u8, day: u8) -> Date {
    Date::from_ymd(year, month, day).unwrap()
}

fn services(ids: &[&str]) -> CollectionWithId<Calendar> {
    let mut calendars = CollectionWithId::new();
    for id in ids {
        calendars
            .push(Calendar { id: String::from(*id), calendar_dates: Vec::new() })
            .unwrap();
    }
    calendars
}

#[test]
fn an_exception_is_recorded_with_its_service() {
    let mut calendars = services(&["weekdays", "weekend"]);
    let recorded = insert_calendar_date(
        &mut calendars,
        CalendarDate {
            service_id: String::from("weekend"),
            date: date(2018, 12, 25),
            exception_type: ExceptionType::Removed,
        },
    );
    assert!(recorded);
    let recorded = insert_calendar_date(
        &mut calendars,
        CalendarDate {
            service_id: String::from("weekend"),
            date: date(2018, 12, 24),
            exception_type: ExceptionType::Added,
        },
    );
    assert!(recorded);
    assert_eq!(
        calendars.get("weekend").unwrap().calendar_dates,
        vec![
            (date(2018, 12, 25), ExceptionType::Removed),
            (date(2018, 12, 24), ExceptionType::Added)
        ]
    );
    assert!(calendars.get("weekdays").unwrap().calendar_dates.is_empty());
    assert_eq!(calendars.len(), 2);
}

#[test]
fn an_exception_to_an_unknown_service_is_passed_over() {
    let mut calendars = services(&["weekdays"]);
    insert_calendar_date(
        &mut calendars,
        CalendarDate {
            service_id: String::from("weekdays"),
            date: date(2018, 1, 1),
            exception_type: ExceptionType::Removed,
        },
    );
    let recorded = insert_calendar_date(
        &mut calendars,
        CalendarDate {
            service_id: String::from("holidays"),
            date: date(2018, 1, 2),
            exception_type: ExceptionType::Added,
        },
    );
    assert!(!recorded);
    assert_eq!(calendars.len(), 1);
    assert_eq!(
        calendars.get("weekdays").unwrap().calendar_dates,
        vec![(date(2018, 1, 1), ExceptionType::Removed)]
    );
}

const CALENDAR: &str = "service_id,monday\nweekdays,1\nweekend,0\n";
const CALENDAR_DATES: &str = "service_id,date,exception_type\n\
    weekdays,20180101,2\n\
    holidays,20180102,1\n\
    weekend,20180101,1\n\
    weekdays,20180402,2\n\
    nights,20180403,2\n";

#[test]
fn services_and_their_exceptions_are_imported() {
    let mut collections = Collections::new();
    let unknown = manage_calendars(
        &mut collections,
        CALENDAR.as_bytes(),
        Some(CALENDAR_DATES.as_bytes()),
    )
    .unwrap();
    assert_eq!(unknown, vec![String::from("holidays"), String::from("nights")]);
    assert_eq!(collections.calendars.len(), 2);
    assert_eq!(
        collections.calendars.get("weekdays").unwrap().calendar_dates,
        vec![
            (date(2018, 1, 1), ExceptionType::Removed),
            (date(2018, 4, 2), ExceptionType::Removed)
        ]
    );
    assert_eq!(
        collections.calendars.get("weekend").unwrap().calendar_dates,
        vec![(date(2018, 1, 1), ExceptionType::Added)]
    );
    assert!(collections.stop_areas.is_empty());
    assert!(collections.stop_points.is_empty());
}

#[test]
fn exceptions_may_be_absent() {
    let mut collections = Collections::new();
    let unknown = manage_calendars(&mut collections, CALENDAR.as_bytes(), None).unwrap();
    assert!(unknown.is_empty());
    assert_eq!(collections.calendars.len(), 2);
    assert_eq!(collections.calendars.index(0).id, "weekdays");
    assert!(collections.calendars.index(0).calendar_dates.is_empty());
    assert_eq!(collections.calendars.index(1).id, "weekend");
}

#[test]
fn a_malformed_exception_ends_the_import() {
    let mut collections = Collections::new();
    let dates = "service_id,date,exception_type\nweekdays,20180101,2\nweekend,2018-01-01,1\n";
    let error = manage_calendars(&mut collections, CALENDAR.as_bytes(), Some(dates.as_bytes()))
        .unwrap_err();
    assert_eq!(error, ImportError::InvalidDate { row: 1, field: String::from("date") });
    assert_eq!(error.message(), "row 1, field 'date': not a date");
    assert!(collections.calendars.is_empty());
    let dates = "service_id,date,exception_type\nweekdays,20180101,3\n";
    let error = manage_calendars(&mut collections, CALENDAR.as_bytes(), Some(dates.as_bytes()))
        .unwrap_err();
    assert_eq!(
        error,
        ImportError::InvalidExceptionType { row: 0, field: String::from("exception_type") }
    );
    assert_eq!(error.message(), "row 0, field 'exception_type': not an exception type");
    let dates = "service_id,date\nweekdays,20180101\n";
    let error = manage_calendars(&mut collections, CALENDAR.as_bytes(), Some(dates.as_bytes()))
        .unwrap_err();
    assert_eq!(
        error,
        ImportError::MissingField { row: 0, field: String::from("exception_type") }
    );
    // An unknown service in a row that cannot be read is a fault all the same.
    let dates = "service_id,date,exception_type\nholidays,20180230,1\n";
    let error = manage_calendars(&mut collections, CALENDAR.as_bytes(), Some(dates.as_bytes()))
        .unwrap_err();
    assert_eq!(error, ImportError::InvalidDate { row: 0, field: String::from("date") });
}

#[test]
fn a_service_is_read_once() {
    let mut collections = Collections::new();
    let calendar = "service_id\nweekdays\nweekend\nweekdays\n";
    let error = manage_calendars(&mut collections, calendar.as_bytes(), None).unwrap_err();
    assert_eq!(error, ImportError::DuplicateIdentifier(String::from("weekdays")));
    assert!(collections.calendars.is_empty());
    let error = manage_calendars(&mut collections, b"monday\n1\n", None).unwrap_err();
    assert_eq!(
        error,
        ImportError::MissingField { row: 0, field: String::from("service_id") }
    );
}

#[test]
fn services_are_merged_into_the_model() {
    let mut collections = Collections::new();
    manage_calendars(&mut collections, b"service_id\nnights\n", None).unwrap();
    let unknown =
        manage_calendars(&mut collections, CALENDAR.as_bytes(), Some(CALENDAR_DATES.as_bytes()))
            .unwrap();
    // The exceptions are resolved against the services that were read with
    // them.
    assert_eq!(unknown, vec![String::from("holidays"), String::from("nights")]);
    assert_eq!(collections.calendars.len(), 3);
    assert_eq!(collections.calendars.index(0).id, "nights");
    assert!(collections.calendars.index(0).calendar_dates.is_empty());
    let error = manage_calendars(&mut collections, b"service_id\nweekend\n", None).unwrap_err();
    assert_eq!(error, ImportError::DuplicateIdentifier(String::from("weekend")));
    assert_eq!(collections.calendars.len(), 3);
}

#[test]
fn tables_of_services_and_exceptions() {
    let table = Table {
        header: vec![String::from("service_id")],
        rows: vec![vec![String::from("a")], vec![String::from("b")]],
        failure: None,
    };
    let mut calendars = calendars_from_table(&table).unwrap();
    assert_eq!(calendars.len(), 2);
    let exceptions = Table {
        header: vec![
            String::from("date"),
            String::from("exception_type"),
            String::from("service_id"),
        ],
        rows: vec![
            vec![String::from("20200229"), String::from("1"), String::from("b")],
            vec![String::from("20200301"), String::from("2"), String::from("c")],
        ],
        failure: None,
    };
    let unknown = calendar_dates_from_table(&exceptions, &mut calendars).unwrap();
    assert_eq!(unknown, vec![String::from("c")]);
    assert_eq!(
        calendars.get("b").unwrap().calendar_dates,
        vec![(date(2020, 2, 29), ExceptionType::Added)]
    );
    let broken = Table {
        header: vec![String::from("service_id")],
        rows: vec![vec![String::from("z")]],
        failure: Some(String::from("the reader gave up")),
    };
    assert_eq!(
        calendars_from_table(&broken).map(|_| ()),
        Err(ImportError::Csv(String::from("the reader gave up")))
    );
}
