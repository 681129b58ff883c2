use backend::uparams::{
    country_uparams_query, documents_json_array, sample_uparams_query, CursorEvent, LoadAction,
    UParamsLoad, FETCH_FAILURE_ENTRY,
};

#[test]
fn country_query_asks_for_usa_and_canada() {
    let q = country_uparams_query();
    assert_eq!(q.database, "delphi-dev");
    assert_eq!(q.collection, "uparams");
    assert_eq!(q.field, "iso3");
    assert_eq!(q.any_of, vec!["USA".to_string(), "CAN".to_string()]);
    assert_eq!(q.limit, None);
}

#[test]
fn sample_query_asks_for_three_of_britain_and_australia() {
    let q = sample_uparams_query();
    assert_eq!(q.database, "delphi-dev");
    assert_eq!(q.collection, "uparams");
    assert_eq!(q.field, "iso3");
    assert_eq!(q.any_of, vec!["GBR".to_string(), "AUS".to_string()]);
    assert_eq!(q.limit, Some(3));
}

#[test]
fn no_documents_frame_an_empty_array() {
    assert_eq!(documents_json_array(&Vec::new()), "[]");
}

#[test]
fn documents_are_framed_in_order() {
    let entries = vec![
        Some(r#"{"iso3":"USA","year":2030}"#.to_string()),
        None,
        Some(r#"{"iso3":"CAN","year":2050}"#.to_string()),
    ];
    assert_eq!(
        documents_json_array(&entries),
        r#"[{"iso3":"USA","year":2030},{"error":"Failed to fetch document"},{"iso3":"CAN","year":2050}]"#
    );
}

#[test]
fn failed_fetch_entry_is_the_error_object() {
    assert_eq!(FETCH_FAILURE_ENTRY, r#"{"error":"Failed to fetch document"}"#);
    assert_eq!(documents_json_array(&vec![None]), r#"[{"error":"Failed to fetch document"}]"#);
}

#[test]
fn framed_array_is_valid_json() {
    let entries = vec![Some(r#"{"a":1}"#.to_string()), None];
    let text = documents_json_array(&entries);
    let value: serde_json::Value = serde_json::from_str(&text).unwrap();
    assert_eq!(value.as_array().unwrap().len(), 2);
    assert_eq!(value[1]["error"], "Failed to fetch document");
}

#[test]
fn load_hands_out_codes_in_document_order() {
    let mut load = UParamsLoad::new();
    for code in ["GBR", "AUS", "GBR"] {
        match load.step(CursorEvent::Document(code.to_string())) {
            LoadAction::FetchNext => {}
            LoadAction::Return(_) => panic!("a document must not end the load"),
        }
    }
    match load.step(CursorEvent::Exhausted) {
        LoadAction::Return(codes) => assert_eq!(codes, vec!["GBR", "AUS", "GBR"]),
        LoadAction::FetchNext => panic!("the end must end the load"),
    }
}

#[test]
fn load_of_no_documents_hands_out_nothing() {
    let mut load = UParamsLoad::new();
    match load.step(CursorEvent::Exhausted) {
        LoadAction::Return(codes) => assert!(codes.is_empty()),
        LoadAction::FetchNext => panic!("the end must end the load"),
    }
}

#[test]
fn load_starts_afresh_after_the_end() {
    let mut load = UParamsLoad::new();
    let _ = load.step(CursorEvent::Document("AUS".to_string()));
    let _ = load.step(CursorEvent::Exhausted);
    match load.step(CursorEvent::Exhausted) {
        LoadAction::Return(codes) => assert!(codes.is_empty()),
        LoadAction::FetchNext => panic!("the end must end the load"),
    }
}
