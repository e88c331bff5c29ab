use transit_model::date::{Date, ExceptionType};
use transit_model::decimal::Decimal;
use transit_model::error::ImportError;
use transit_model::table::Table;

fn strings(fields: &[&str]) -> Vec<String> {
    fields.iter().map(|field| String::from(*field)).collect()
}

#[test]
fn a_table_is_read_from_comma_separated_text() {
    let table = Table::read(b"code , name,\"x, y\"\n 1 ,\"Bus, Station\", \n2,b,c\n");
    assert_eq!(table.header, strings(&["code", "name", "x, y"]));
    assert_eq!(
        table.rows,
        vec![strings(&["1", "Bus, Station", ""]), strings(&["2", "b", "c"])]
    );
    assert_eq!(table.failure, None);
}

#[test]
fn a_table_keeps_the_rows_before_a_fault() {
    let table = Table::read(b"a,b\n1,2\n3\n4,5\n");
    assert_eq!(table.header, strings(&["a", "b"]));
    assert_eq!(table.rows, vec![strings(&["1", "2"])]);
    assert!(table.failure.is_some());
    let table = Table::read(b"");
    assert!(table.header.is_empty());
    assert!(table.rows.is_empty());
    assert_eq!(table.failure, None);
}

#[test]
fn fields_are_read_by_their_type() {
    let table = Table::read(b"id,east,day,kind\nx,1.5e3,20181231,2\n,east,181231,0\n");
    let id = table.column("id");
    let east = table.column("east");
    let day = table.column("day");
    let kind = table.column("kind");
    let none = table.column("north");
    assert_eq!(table.text(0, &id), Ok(String::from("x")));
    assert_eq!(table.required(0, &id), Ok(String::from("x")));
    assert_eq!(table.decimal(0, &east).unwrap().as_str(), "1.5e3");
    assert_eq!(table.date(0, &day), Ok(Date::from_ymd(2018, 12, 31).unwrap()));
    assert_eq!(table.exception_type(0, &kind), Ok(ExceptionType::Removed));
    assert_eq!(table.text(1, &id), Ok(String::new()));
    assert_eq!(
        table.required(1, &id),
        Err(ImportError::EmptyField { row: 1, field: String::from("id") })
    );
    assert_eq!(
        table.decimal(1, &east),
        Err(ImportError::InvalidDecimal { row: 1, field: String::from("east") })
    );
    assert_eq!(
        table.date(1, &day),
        Err(ImportError::InvalidDate { row: 1, field: String::from("day") })
    );
    assert_eq!(
        table.exception_type(1, &kind),
        Err(ImportError::InvalidExceptionType { row: 1, field: String::from("kind") })
    );
    assert_eq!(
        table.text(0, &none),
        Err(ImportError::MissingField { row: 0, field: String::from("north") })
    );
    assert_eq!(
        table.decimal(1, &none),
        Err(ImportError::MissingField { row: 1, field: String::from("north") })
    );
}

#[test]
fn the_first_column_of_a_name_is_taken() {
    let table = Table {
        header: strings(&["a", "b", "a"]),
        rows: vec![strings(&["1", "2", "3"]), strings(&["4"]), vec![]],
        failure: None,
    };
    let a = table.column("a");
    let b = table.column("b");
    assert_eq!(table.text(0, &a), Ok(String::from("1")));
    assert_eq!(table.text(0, &b), Ok(String::from("2")));
    assert_eq!(table.text(1, &a), Ok(String::from("4")));
    assert_eq!(
        table.text(1, &b),
        Err(ImportError::MissingField { row: 1, field: String::from("b") })
    );
    assert_eq!(
        table.text(2, &a),
        Err(ImportError::MissingField { row: 2, field: String::from("a") })
    );
}

#[test]
fn decimal_literals() {
    for text in [
        "0", "358929", "-2.5876178397", "+51.4558382170", ".5", "5.", "-.5", "1e5", "1E5",
        "1.5e-7", "2.e+10", "0012.3400", "123456789012345678901234567890.5",
    ] {
        let number = Decimal::parse(text);
        assert_eq!(number.as_ref().map(|number| number.as_str()), Some(text), "{}", text);
        assert!(text.parse::<f64>().is_ok());
        assert_eq!(number.clone(), Decimal::parse(text));
    }
    for text in [
        "", " ", ".", "-", "+", "e5", "1e", "1e+", "1.2.3", "1,5", "--1", "1 ", " 1", "1e5.5",
        "inf", "NaN", "0x10", "1_000", "１", "1.5f", "e", "-e1", ".e1",
    ] {
        assert_eq!(Decimal::parse(text), None, "{:?}", text);
    }
}

#[test]
fn calendar_dates() {
    let day = Date::parse("20180131").unwrap();
    assert_eq!((day.year(), day.month(), day.day()), (2018, 1, 31));
    assert_eq!(Date::parse("20200229"), Date::from_ymd(2020, 2, 29));
    assert!(Date::parse("20200229").is_some());
    assert_eq!(Date::parse("00000101").map(|day| day.year()), Some(0));
    assert_eq!(Date::parse("99991231").map(|day| day.day()), Some(31));
    assert!(Date::parse("20000229").is_some());
    for text in [
        "", "2018013", "201801311", "2018-01-31", "20180132", "20180001", "20181301",
        "20180100", "20190229", "19000229", "20180431", "2018013a", "+2018131", "２０１８０１３１",
    ] {
        assert_eq!(Date::parse(text), None, "{:?}", text);
    }
    assert_eq!(Date::from_ymd(2018, 2, 29), None);
    assert_eq!(Date::from_ymd(10000, 1, 1), None);
    assert_eq!(Date::from_ymd(2018, 0, 1), None);
    assert_eq!(Date::from_ymd(2018, 11, 31), None);
    assert!(Date::from_ymd(2018, 12, 31).is_some());
}

#[test]
fn exception_types() {
    assert_eq!(ExceptionType::parse("1"), Some(ExceptionType::Added));
    assert_eq!(ExceptionType::parse("2"), Some(ExceptionType::Removed));
    for text in ["", "0", "3", "11", "Added", "１"] {
        assert_eq!(ExceptionType::parse(text), None, "{:?}", text);
    }
}

#[test]
fn messages_of_errors() {
    let field = || String::from("Easting");
    assert_eq!(ImportError::Csv(String::from("as the reader says")).message(), "as the reader says");
    assert_eq!(
        ImportError::MissingField { row: 0, field: field() }.message(),
        "row 0, field 'Easting': no such field"
    );
    assert_eq!(
        ImportError::EmptyField { row: 9, field: field() }.message(),
        "row 9, field 'Easting': the field is empty"
    );
    assert_eq!(
        ImportError::InvalidDecimal { row: 10, field: field() }.message(),
        "row 10, field 'Easting': not a decimal number"
    );
    assert_eq!(
        ImportError::InvalidDate { row: 407, field: String::from("date") }.message(),
        "row 407, field 'date': not a date"
    );
    assert_eq!(
        ImportError::InvalidExceptionType { row: 1234567890, field: String::new() }.message(),
        "row 1234567890, field '': not an exception type"
    );
    assert_eq!(
        ImportError::Projection { row: 65536 }.message(),
        "row 65536: the coordinate cannot be projected"
    );
    assert_eq!(
        ImportError::DuplicateIdentifier(String::from("010G0001")).message(),
        "identifier '010G0001' already found"
    );
    assert_eq!(
        ImportError::UnresolvedReference(String::from("0100053264")).message(),
        "Failed to find the corresponding StopArea for the StopPoint '0100053264'"
    );
}
