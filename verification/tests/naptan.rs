use transit_model::collection::CollectionWithId;
use transit_model::decimal::Decimal;
use transit_model::error::ImportError;
use transit_model::model::Collections;
use transit_model::objects::{Coord, StopArea};
use transit_model::transxchange::naptan::{
    add_stop_area, build_membership, read_naptan, read_stop_areas, read_stops,
    read_stops_in_area, stop_point_from, validate_stops, NaPTANStop, NaPTANStopArea,
    NaPTANStopInArea, StopsInArea,
};

fn decimal(text: &str) -> Decimal {
    Decimal::parse(text).unwrap()
}

/// A stand-in for a projection: a linear map that is easy to check by hand.
fn project(easting: &Decimal, northing: &Decimal) -> Option<Coord> {
    let x: f64 = easting.as_str().parse().unwrap();
    let y: f64 = northing.as_str().parse().unwrap();
    if x < 0.0 || y < 0.0 {
        return None;
    }
    let lon = (x - 400000.0) / 65536.0;
    let lat = 49.0 + y / 131072.0;
    Some(Coord {
        lon: Decimal::parse(&format!("{}", lon))?,
        lat: Decimal::parse(&format!("{}", lat))?,
    })
}

fn two_stops_in_area() -> StopsInArea {
    let mut stop_in_area = StopsInArea::new();
    stop_in_area.insert(String::from("0100053316"), String::from("stop-area-1"));
    stop_in_area.insert(String::from("0100053264"), String::from("stop-area-2"));
    stop_in_area
}

#[test]
fn parsing_works() {
    let csv_content = r#""StopAreaCode","Name","Easting","Northing"
"010G0001","Bristol Bus Station",358929,173523
"010G0002","Temple Meads",359657,172418"#;
    let stop_areas = read_stop_areas(csv_content.as_bytes(), project).unwrap();
    assert_eq!(stop_areas.len(), 2);
    let stop_area = stop_areas.get("010G0001").unwrap();
    assert_eq!(stop_area.name, "Bristol Bus Station");
    let stop_area = stop_areas.get("010G0002").unwrap();
    assert_eq!(stop_area.name, "Temple Meads");
}

#[test]
#[should_panic]
fn no_stop_area_code() {
    let csv_content = r#""Name","NameLang","AdministrativeAreaCode","StopAreaType","GridType","Easting","Northing"
"Temple Meads",359657,172418"#;
    read_stop_areas(csv_content.as_bytes(), project).unwrap();
}

#[test]
#[should_panic]
fn empty_stop_area_code() {
    let csv_content = r#""StopAreaCode","Name","NameLang","AdministrativeAreaCode","StopAreaType","GridType","Easting","Northing"
,"Bristol Bus Station",358929,173523
,"Temple Meads",359657,172418"#;
    read_stop_areas(csv_content.as_bytes(), project).unwrap();
}

#[test]
#[should_panic]
fn duplicate_id() {
    let csv_content = r#""StopAreaCode","Name","Easting","Northing"
"010G0001","Bristol Bus Station",358929,173523
"010G0001","Bristol Bus Station",358929,173523
"010G0002","Temple Meads",359657,172418"#;
    read_stop_areas(csv_content.as_bytes(), project).unwrap();
}

#[test]
fn naptan_parsing_works() {
    let csv_content = r#""StopAreaCode","AtcoCode"
"010G0005","01000053220"
"910GBDMNSTR","0100BDMNSTR0""#;
    let stops_in_area = read_stops_in_area(csv_content.as_bytes()).unwrap();
    assert_eq!(stops_in_area.len(), 2);
    let stop_area_code = stops_in_area.get("01000053220").unwrap();
    assert_eq!(stop_area_code, "010G0005");
    let stop_area_code = stops_in_area.get("0100BDMNSTR0").unwrap();
    assert_eq!(stop_area_code, "910GBDMNSTR");
}

#[test]
#[should_panic]
fn no_atco_code() {
    let csv_content = r#""StopAreaCode"
"010G0005"
"910GBDMNSTR""#;
    read_stops_in_area(csv_content.as_bytes()).map(|_| ()).unwrap();
}

#[test]
fn read_stops_parsing_works() {
    let csv_content = r#""ATCOCode","CommonName","Indicator","Longitude","Latitude"
"0100053316","Broad Walk Shops","Stop B",-2.5876178397,51.4558382170
"0100053264","Alberton Road","NE-bound",-2.5407019785,51.4889912765"#;
    let stop_in_area = two_stops_in_area();
    let stop_points = read_stops(csv_content.as_bytes(), &stop_in_area).unwrap();
    assert_eq!(stop_points.len(), 2);
    let stop_point = stop_points.get("0100053316").unwrap();
    assert_eq!(stop_point.name, "Broad Walk Shops");
    let stop_point = stop_points.get("0100053264").unwrap();
    assert_eq!(stop_point.name, "Alberton Road");
}

#[test]
#[should_panic(
    expected = "Failed to find the corresponding StopArea for the StopPoint \\'0100053264\\'"
)]
fn no_stop_area() {
    let csv_content = r#""ATCOCode","CommonName","Indicator","Longitude","Latitude"
"0100053264","Alberton Road","NE-bound",-2.5407019785,51.4889912765"#;
    let stop_in_area = StopsInArea::new();
    if let Err(error) = read_stops(csv_content.as_bytes(), &stop_in_area) {
        // The message, written as a string literal would write it.
        panic!("{}", error.message().escape_default());
    }
}

#[test]
#[should_panic]
fn naptan_no_atco_code() {
    let csv_content = r#""CommonName","Indicator","Longitude","Latitude"
"Broad Walk Shops","Stop B",-2.5876178397,51.4558382170
"Alberton Road","NE-bound",-2.5407019785,51.4889912765"#;
    let stop_in_area = StopsInArea::new();
    read_stops(csv_content.as_bytes(), &stop_in_area).unwrap();
}

#[test]
#[should_panic(expected = "row 0, field \\'ATCOCode\\': the field is empty")]
fn no_id() {
    let csv_content = r#""ATCOCode","CommonName","Indicator","Longitude","Latitude"
,"Broad Walk Shops","Stop B",-2.5876178397,51.4558382170
,"Alberton Road","NE-bound",-2.5407019785,51.4889912765"#;
    let stop_in_area = two_stops_in_area();
    if let Err(error) = read_stops(csv_content.as_bytes(), &stop_in_area) {
        panic!("{}", error.message().escape_default());
    }
}

#[test]
#[should_panic]
fn naptan_duplicate_id() {
    let csv_content = r#""ATCOCode","CommonName","Indicator","Longitude","Latitude"
"0100053316","Broad Walk Shops","Stop B",-2.5876178397,51.4558382170
"0100053316","Broad Walk Shops","Stop B",-2.5876178397,51.4558382170
"0100053264","Alberton Road","NE-bound",-2.5407019785,51.4889912765"#;
    let stop_in_area = two_stops_in_area();
    read_stops(csv_content.as_bytes(), &stop_in_area).unwrap();
}

#[test]
fn stop_areas_stand_where_the_projection_puts_them() {
    let csv_content = "StopAreaCode,Name,Easting,Northing\n\
        010G0001,Bristol Bus Station,358929,173523\n\
        010G0002,Temple Meads,359657,172418\n\
        010G0003,Cabot Circus,359400.5,173600\n";
    let stop_areas = read_stop_areas(csv_content.as_bytes(), project).unwrap();
    assert_eq!(stop_areas.len(), 3);
    let rows = [
        ("010G0001", "358929", "173523"),
        ("010G0002", "359657", "172418"),
        ("010G0003", "359400.5", "173600"),
    ];
    for (position, (code, easting, northing)) in rows.iter().enumerate() {
        let stop_area = stop_areas.index(position);
        assert_eq!(stop_area.id, *code);
        let expected = project(&decimal(easting), &decimal(northing)).unwrap();
        assert_eq!(stop_area.coord, expected);
    }
    let first = stop_areas.get("010G0001").unwrap();
    assert_eq!(first.coord.lon.as_str(), "-0.6266937255859375");
    assert_eq!(first.coord.lat.as_str(), "50.323875427246094");
}

#[test]
fn stop_area_rows_with_one_code_fail_whatever_else_they_hold() {
    let csv_content = "StopAreaCode,Name,Easting,Northing\n\
        010G0001,Bristol Bus Station,358929,173523\n\
        010G0002,Temple Meads,359657,172418\n\
        010G0001,Another Name,1,2\n";
    let error = read_stop_areas(csv_content.as_bytes(), project).map(|_| ()).unwrap_err();
    assert_eq!(error, ImportError::DuplicateIdentifier(String::from("010G0001")));
    assert_eq!(error.message(), "identifier '010G0001' already found");
}

#[test]
fn a_stop_area_without_a_position_fails() {
    let csv_content = "StopAreaCode,Name,Easting,Northing\n\
        010G0001,Bristol Bus Station,358929,173523\n\
        010G0002,Temple Meads,-1,172418\n";
    let error = read_stop_areas(csv_content.as_bytes(), project).map(|_| ()).unwrap_err();
    assert_eq!(error, ImportError::Projection { row: 1 });
    assert_eq!(error.message(), "row 1: the coordinate cannot be projected");
}

#[test]
fn the_first_fault_of_a_stop_area_table_is_reported() {
    // The second row repeats a code, the third holds no number: the repeated
    // code comes first.
    let csv_content = "StopAreaCode,Name,Easting,Northing\n\
        010G0001,Bristol Bus Station,358929,173523\n\
        010G0001,Temple Meads,359657,172418\n\
        010G0003,Cabot Circus,east,173600\n";
    let error = read_stop_areas(csv_content.as_bytes(), project).map(|_| ()).unwrap_err();
    assert_eq!(error, ImportError::DuplicateIdentifier(String::from("010G0001")));
    // A row that the reader cannot split comes after the rows before it.
    let csv_content = "StopAreaCode,Name,Easting,Northing\n\
        010G0001,Bristol Bus Station,north,173523\n\
        010G0002,Temple Meads\n";
    let error = read_stop_areas(csv_content.as_bytes(), project).map(|_| ()).unwrap_err();
    assert_eq!(
        error,
        ImportError::InvalidDecimal { row: 0, field: String::from("Easting") }
    );
    let csv_content = "StopAreaCode,Name,Easting,Northing\n\
        010G0001,Bristol Bus Station,358929,173523\n\
        010G0002,Temple Meads\n";
    let error = read_stop_areas(csv_content.as_bytes(), project).map(|_| ()).unwrap_err();
    assert!(matches!(error, ImportError::Csv(_)));
}

#[test]
fn stop_area_fields_are_checked() {
    let missing = "StopAreaCode,Name,Easting\n010G0001,Bristol Bus Station,358929\n";
    let error = read_stop_areas(missing.as_bytes(), project).map(|_| ()).unwrap_err();
    assert_eq!(
        error,
        ImportError::MissingField { row: 0, field: String::from("Northing") }
    );
    assert_eq!(error.message(), "row 0, field 'Northing': no such field");
    let empty = "StopAreaCode,Name,Easting,Northing\n,Bristol Bus Station,358929,173523\n";
    let error = read_stop_areas(empty.as_bytes(), project).map(|_| ()).unwrap_err();
    assert_eq!(
        error,
        ImportError::EmptyField { row: 0, field: String::from("StopAreaCode") }
    );
    let invalid = "StopAreaCode,Name,Easting,Northing\n\
        010G0001,Bristol Bus Station,358929,173523\n\
        010G0002,Temple Meads,359657,17a\n";
    let error = read_stop_areas(invalid.as_bytes(), project).map(|_| ()).unwrap_err();
    assert_eq!(
        error,
        ImportError::InvalidDecimal { row: 1, field: String::from("Northing") }
    );
    assert_eq!(error.message(), "row 1, field 'Northing': not a decimal number");
}

#[test]
fn a_table_without_rows_gives_an_empty_collection() {
    let stop_areas = read_stop_areas(b"StopAreaCode,Name,Easting,Northing\n", project).unwrap();
    assert!(stop_areas.is_empty());
    let stop_areas = read_stop_areas(b"", project).unwrap();
    assert_eq!(stop_areas.len(), 0);
    // Columns are missed only where a row asks for them.
    let stops_in_area = read_stops_in_area(b"StopAreaCode\n").map_err(|e| e.message()).unwrap();
    assert_eq!(stops_in_area.len(), 0);
}

#[test]
fn fields_are_trimmed_and_columns_found_by_name() {
    let csv_content = "Extra , Northing,Easting, Name ,StopAreaCode\n\
        x, 173523 , 358929,  Bristol Bus Station , 010G0001 \n";
    let stop_areas = read_stop_areas(csv_content.as_bytes(), project).unwrap();
    let stop_area = stop_areas.get("010G0001").unwrap();
    assert_eq!(stop_area.name, "Bristol Bus Station");
    assert_eq!(
        stop_area.coord,
        project(&decimal("358929"), &decimal("173523")).unwrap()
    );
}

#[test]
fn the_last_record_of_a_stop_decides_its_area() {
    let csv_content = "StopAreaCode,AtcoCode\n\
        010G0005,01000053220\n\
        910GBDMNSTR,0100BDMNSTR0\n\
        010G0007,01000053220\n";
    let stops_in_area = read_stops_in_area(csv_content.as_bytes()).map_err(|e| e.message()).unwrap();
    assert_eq!(stops_in_area.len(), 2);
    assert_eq!(stops_in_area.get("01000053220").unwrap(), "010G0007");
    assert_eq!(stops_in_area.get("0100BDMNSTR0").unwrap(), "910GBDMNSTR");
    assert!(stops_in_area.get("0100053264").is_none());

    let records = vec![
        NaPTANStopInArea {
            atco_code: String::from("a"),
            stop_area_code: String::from("first"),
        },
        NaPTANStopInArea {
            atco_code: String::from("b"),
            stop_area_code: String::from("other"),
        },
        NaPTANStopInArea {
            atco_code: String::from("a"),
            stop_area_code: String::from("second"),
        },
    ];
    let stops_in_area = build_membership(&records);
    assert_eq!(stops_in_area.len(), 2);
    assert_eq!(stops_in_area.resolve("a"), Ok(String::from("second")));
    assert_eq!(stops_in_area.resolve("b"), Ok(String::from("other")));
    assert_eq!(
        stops_in_area.resolve("c"),
        Err(ImportError::UnresolvedReference(String::from("c")))
    );
}

#[test]
fn a_stop_without_area_fails_and_is_named() {
    let csv_content = r#""ATCOCode","CommonName","Indicator","Longitude","Latitude"
"0100053316","Broad Walk Shops","Stop B",-2.5876178397,51.4558382170
"0100053264","Alberton Road","NE-bound",-2.5407019785,51.4889912765"#;
    let mut stop_in_area = StopsInArea::new();
    stop_in_area.insert(String::from("0100053316"), String::from("stop-area-1"));
    let error = read_stops(csv_content.as_bytes(), &stop_in_area).map(|_| ()).unwrap_err();
    assert_eq!(error, ImportError::UnresolvedReference(String::from("0100053264")));
    assert_eq!(
        error.message(),
        "Failed to find the corresponding StopArea for the StopPoint '0100053264'"
    );
}

#[test]
fn stop_points_hold_what_their_rows_hold() {
    let csv_content = r#""ATCOCode","CommonName","Indicator","Longitude","Latitude"
"0100053316","Broad Walk Shops","Stop B",-2.5876178397,51.4558382170
"0100053264","Alberton Road","",-2.5407019785,51.4889912765"#;
    let stop_points = read_stops(csv_content.as_bytes(), &two_stops_in_area()).unwrap();
    let first = stop_points.index(0);
    assert_eq!(first.id, "0100053316");
    assert_eq!(first.stop_area_id, "stop-area-1");
    assert_eq!(first.platform_code, Some(String::from("Stop B")));
    assert_eq!(first.coord.lon.as_str(), "-2.5876178397");
    assert_eq!(first.coord.lat.as_str(), "51.4558382170");
    let lon: f64 = first.coord.lon.as_str().parse().unwrap();
    assert!((lon + 2.5876178397).abs() < 1e-12);
    let second = stop_points.index(1);
    assert_eq!(second.id, "0100053264");
    assert_eq!(second.stop_area_id, "stop-area-2");
    assert_eq!(second.platform_code, Some(String::new()));
    assert_eq!(stop_points.get_idx("0100053264"), Some(1));
    assert_eq!(stop_points.get_idx("0100053265"), None);
}

#[test]
fn a_stop_point_is_made_of_its_record() {
    let record = NaPTANStop {
        atco_code: String::from("0100053316"),
        name: String::from("Broad Walk Shops"),
        longitude: decimal("-2.5876178397"),
        latitude: decimal("51.4558382170"),
        indicator: String::from("Stop B"),
    };
    let stop_point = stop_point_from(record, &two_stops_in_area()).unwrap();
    assert_eq!(stop_point.id, "0100053316");
    assert_eq!(stop_point.name, "Broad Walk Shops");
    assert_eq!(stop_point.stop_area_id, "stop-area-1");
    assert_eq!(
        stop_point.coord,
        Coord { lon: decimal("-2.5876178397"), lat: decimal("51.4558382170") }
    );
    let record = NaPTANStop {
        atco_code: String::from("0100053317"),
        name: String::from("Nowhere"),
        longitude: decimal("0"),
        latitude: decimal("0"),
        indicator: String::new(),
    };
    assert_eq!(
        stop_point_from(record, &two_stops_in_area()),
        Err(ImportError::UnresolvedReference(String::from("0100053317")))
    );
}

#[test]
fn a_stop_area_is_added_by_what_the_projection_answered() {
    let record = |code: &str| NaPTANStopArea {
        stop_area_code: String::from(code),
        name: String::from("Temple Meads"),
        easting: decimal("359657"),
        northing: decimal("172418"),
    };
    let coord = || Coord { lon: decimal("-2.58"), lat: decimal("51.44") };
    let mut stop_areas: CollectionWithId<StopArea> = CollectionWithId::new();
    assert_eq!(add_stop_area(&mut stop_areas, 0, record("010G0002"), Some(coord())), Ok(()));
    assert_eq!(stop_areas.len(), 1);
    assert_eq!(
        *stop_areas.index(0),
        StopArea {
            id: String::from("010G0002"),
            name: String::from("Temple Meads"),
            coord: coord(),
        }
    );
    assert_eq!(
        add_stop_area(&mut stop_areas, 7, record("010G0003"), None),
        Err(ImportError::Projection { row: 7 })
    );
    assert_eq!(
        add_stop_area(&mut stop_areas, 8, record("010G0002"), Some(coord())),
        Err(ImportError::DuplicateIdentifier(String::from("010G0002")))
    );
    assert_eq!(stop_areas.len(), 1);
}

#[test]
fn nothing_that_was_read_is_refused_by_the_validation() {
    let stop_areas = read_stop_areas(
        b"StopAreaCode,Name,Easting,Northing\n010G0001,Bristol Bus Station,358929,173523\n",
        project,
    )
    .unwrap();
    let stop_points = read_stops(
        b"ATCOCode,CommonName,Indicator,Longitude,Latitude\n0100053316,Broad Walk Shops,Stop B,-2.58,51.45\n",
        &two_stops_in_area(),
    )
    .unwrap();
    assert_eq!(validate_stops(&stop_areas, &stop_points), Ok(()));
    let none: CollectionWithId<StopArea> = CollectionWithId::new();
    assert_eq!(validate_stops(&none, &stop_points), Ok(()));
}

const STOP_AREAS: &str = "StopAreaCode,Name,Easting,Northing\n\
    010G0001,Bristol Bus Station,358929,173523\n\
    010G0002,Temple Meads,359657,172418\n";
const STOPS_IN_AREA: &str = "StopAreaCode,AtcoCode\n\
    010G0001,0100053316\n\
    010G0002,0100053264\n";
const STOPS: &str = "ATCOCode,CommonName,Indicator,Longitude,Latitude\n\
    0100053316,Broad Walk Shops,Stop B,-2.5876178397,51.4558382170\n\
    0100053264,Alberton Road,NE-bound,-2.5407019785,51.4889912765\n";

#[test]
fn a_data_set_is_merged_into_the_model() {
    let mut collections = Collections::new();
    let outcome = read_naptan(
        STOP_AREAS.as_bytes(),
        STOPS_IN_AREA.as_bytes(),
        STOPS.as_bytes(),
        project,
        &mut collections,
    );
    assert_eq!(outcome, Ok(()));
    assert_eq!(collections.stop_areas.len(), 2);
    assert_eq!(collections.stop_points.len(), 2);
    assert_eq!(collections.calendars.len(), 0);
    assert_eq!(
        collections.stop_areas.get("010G0001").unwrap().name,
        "Bristol Bus Station"
    );
    assert_eq!(
        collections.stop_points.get("0100053264").unwrap().stop_area_id,
        "010G0002"
    );
    // A second import of the same data set clashes with the first.
    let outcome = read_naptan(
        STOP_AREAS.as_bytes(),
        STOPS_IN_AREA.as_bytes(),
        STOPS.as_bytes(),
        project,
        &mut collections,
    );
    assert_eq!(outcome, Err(ImportError::DuplicateIdentifier(String::from("010G0001"))));
    assert_eq!(collections.stop_areas.len(), 2);
    assert_eq!(collections.stop_points.len(), 2);
}

#[test]
fn a_failing_step_leaves_the_model_as_it_was() {
    let mut collections = Collections::new();
    let members = "StopAreaCode,AtcoCode\n010G0001,0100053316\n";
    let outcome = read_naptan(
        STOP_AREAS.as_bytes(),
        members.as_bytes(),
        STOPS.as_bytes(),
        project,
        &mut collections,
    );
    assert_eq!(outcome, Err(ImportError::UnresolvedReference(String::from("0100053264"))));
    assert!(collections.stop_areas.is_empty());
    assert!(collections.stop_points.is_empty());
    let outcome = read_naptan(
        b"StopAreaCode,Name,Easting,Northing\n010G0001,Bristol Bus Station,358929\n",
        members.as_bytes(),
        STOPS.as_bytes(),
        project,
        &mut collections,
    );
    assert!(matches!(outcome, Err(ImportError::Csv(_))));
    assert!(collections.stop_areas.is_empty());
}
