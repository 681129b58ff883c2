use backend::models::Fundamentals;
use backend::workbook::{fundamentals_workbook, spreadsheet_writer, written_workbook, WorkbookError, SHEET_NAME};

fn example() -> Fundamentals {
    Fundamentals {
        company_name: "a".to_string(),
        primary_sector: "bb".to_string(),
        primary_country: "c".to_string(),
        total_revenue: "3".to_string(),
    }
}

fn check_layout(book: &umya_spreadsheet::Spreadsheet, values: [&str; 4]) {
    assert_eq!(book.get_sheet_count(), 1);
    let sheet = book.get_sheet_by_name(SHEET_NAME).expect("the sheet is there");
    assert_eq!(sheet.get_name(), "Unwritten");
    assert_eq!(sheet.get_value("A1"), "Company Name");
    assert_eq!(sheet.get_value("A2"), "Primary Sector");
    assert_eq!(sheet.get_value("A3"), "Primary Country");
    assert_eq!(sheet.get_value("A4"), "Total Revenue");
    assert_eq!(sheet.get_value("B1"), values[0]);
    assert_eq!(sheet.get_value("B2"), values[1]);
    assert_eq!(sheet.get_value("B3"), values[2]);
    assert_eq!(sheet.get_value("B4"), values[3]);
    let fill = sheet.get_style("A2").get_background_color().expect("A2 is filled");
    assert_eq!(fill.get_argb(), "FF0000FF");
    for coordinate in ["A1", "A3", "A4", "B1", "B2", "B3", "B4"] {
        assert!(sheet.get_style(coordinate).get_background_color().is_none(), "{coordinate}");
    }
}

#[test]
fn workbook_layout_of_the_example() {
    let book = fundamentals_workbook(&example());
    check_layout(&book, ["a", "bb", "c", "3"]);
    let sheet = book.get_sheet_by_name(SHEET_NAME).unwrap();
    assert_eq!(sheet.get_cell_collection().len(), 8);
    assert!(book.get_sheet_by_name("Sheet1").is_none());
}

#[test]
fn values_are_read_with_their_type() {
    let inputs = Fundamentals {
        company_name: "Ice Creamapalooza".to_string(),
        primary_sector: "true".to_string(),
        primary_country: "".to_string(),
        total_revenue: "3.0".to_string(),
    };
    let book = fundamentals_workbook(&inputs);
    // "3.0" is read as the number 3, "true" as the boolean TRUE.
    check_layout(&book, ["Ice Creamapalooza", "TRUE", "", "3"]);
    let sheet = book.get_sheet_by_name(SHEET_NAME).unwrap();
    assert_eq!(sheet.get_value_number("B4"), Some(3.0));
}

#[test]
fn xlsx_bytes_read_back_to_the_layout() {
    let bytes = spreadsheet_writer(&example()).expect("the workbook is written");
    assert!(bytes.starts_with(&[0x50, 0x4B, 0x03, 0x04]));
    let book = umya_spreadsheet::reader::xlsx::read_reader(std::io::Cursor::new(bytes), true).unwrap();
    check_layout(&book, ["a", "bb", "c", "3"]);
}

#[test]
fn written_bytes_are_handed_on() {
    match written_workbook(Ok(vec![1, 2, 3])) {
        Ok(bytes) => assert_eq!(bytes, vec![1, 2, 3]),
        Err(_) => panic!("bytes must be handed on"),
    }
    let err = umya_spreadsheet::XlsxError::CellError("bad".to_string());
    match written_workbook(Err(err)) {
        Err(WorkbookError::Write(inner)) => assert!(format!("{inner:?}").contains("bad")),
        Ok(_) => panic!("a failure must stay a failure"),
    }
}

#[test]
fn xlsx_read_back_gives_the_record() {
    let inputs = Fundamentals {
        company_name: "Ice Creamapalooza".to_string(),
        primary_sector: "Food".to_string(),
        primary_country: "BRA".to_string(),
        total_revenue: "999".to_string(),
    };
    let bytes = spreadsheet_writer(&inputs).expect("the workbook is written");
    let book = umya_spreadsheet::reader::xlsx::read_reader(std::io::Cursor::new(bytes), true).unwrap();
    check_layout(&book, ["Ice Creamapalooza", "Food", "BRA", "999"]);
    let sheet = book.get_sheet_by_name(SHEET_NAME).unwrap();
    assert_eq!(sheet.get_cell_collection().len(), 8);
}

#[test]
fn blank_value_is_not_written() {
    let inputs = Fundamentals {
        company_name: "".to_string(),
        primary_sector: "x".to_string(),
        primary_country: "y".to_string(),
        total_revenue: "1e3".to_string(),
    };
    let bytes = spreadsheet_writer(&inputs).expect("the workbook is written");
    let book = umya_spreadsheet::reader::xlsx::read_reader(std::io::Cursor::new(bytes), true).unwrap();
    check_layout(&book, ["", "x", "y", "1000"]);
    let sheet = book.get_sheet_by_name(SHEET_NAME).unwrap();
    assert!(sheet.get_cell("B1").is_none());
    assert_eq!(sheet.get_cell_collection().len(), 7);
}

fn read_back(inputs: &Fundamentals) -> umya_spreadsheet::Spreadsheet {
    let bytes = spreadsheet_writer(inputs).expect("the workbook is written");
    umya_spreadsheet::reader::xlsx::read_reader(std::io::Cursor::new(bytes), true).unwrap()
}

#[test]
fn error_code_is_written_as_value_error() {
    let inputs = Fundamentals {
        company_name: "#N/A".to_string(),
        primary_sector: "#x".to_string(),
        primary_country: "nan".to_string(),
        total_revenue: "TRUE".to_string(),
    };
    let book = fundamentals_workbook(&inputs);
    check_layout(&book, ["#N/A", "#x", "nan", "TRUE"]);
    let archive = read_back(&inputs);
    check_layout(&archive, ["#VALUE!", "#x", "nan", "TRUE"]);
}

#[test]
fn lower_case_booleans_read_as_booleans() {
    let inputs = Fundamentals {
        company_name: "true".to_string(),
        primary_sector: "False".to_string(),
        primary_country: "-0.5".to_string(),
        total_revenue: "007".to_string(),
    };
    let archive = read_back(&inputs);
    check_layout(&archive, ["TRUE", "FALSE", "-0.5", "7"]);
}

#[test]
fn long_values_are_written() {
    let long = "x".repeat(15000);
    let inputs = Fundamentals {
        company_name: long.clone(),
        primary_sector: long.clone(),
        primary_country: long.clone(),
        total_revenue: long.clone(),
    };
    let archive = read_back(&inputs);
    check_layout(&archive, [long.as_str(), long.as_str(), long.as_str(), long.as_str()]);
}

#[test]
fn equal_records_give_equal_bytes() {
    let a = spreadsheet_writer(&example()).expect("written");
    let b = spreadsheet_writer(&example()).expect("written");
    assert_eq!(a, b);
}
