use citygml_stid::ledger::{
    append_record, entry_key, ledger_entry, ledger_needs_parse, load_ledger, LedgerError,
};
use citygml_stid::scan::BuildingInfo;
use std::collections::HashSet;

fn record(id: &str, cells: &[&str]) -> BuildingInfo {
    let mut r = BuildingInfo::new();
    r.building_id = id.to_string();
    r.stid_set = cells.iter().map(|c| c.to_string()).collect();
    r.attribute_info_map.insert("uro:buildingStructureType".to_string(), "Wooden".to_string());
    r
}

fn append(existing: Option<String>, count: u32, r: &BuildingInfo) -> String {
    append_record(&existing, count, r).unwrap()
}

#[test]
fn entry_keys_are_decimal() {
    assert_eq!(entry_key(0), "0");
    assert_eq!(entry_key(7), "7");
    assert_eq!(entry_key(10), "10");
    assert_eq!(entry_key(1234), "1234");
    assert_eq!(entry_key(u32::MAX), u32::MAX.to_string());
}

#[test]
fn absent_or_blank_ledger_is_not_parsed() {
    assert!(!ledger_needs_parse(&None));
    assert!(!ledger_needs_parse(&Some(String::new())));
    assert!(!ledger_needs_parse(&Some(" \n\t".to_string())));
    assert!(ledger_needs_parse(&Some("{}".to_string())));
    assert!(ledger_needs_parse(&Some("not json".to_string())));
}

#[test]
fn first_append_writes_key_zero_and_next_run_overwrites_it() {
    let first = append(None, 0, &record("bldg_001", &["a", "b"]));
    let v: serde_json::Value = serde_json::from_str(&first).unwrap();
    let obj = v.as_object().unwrap();
    assert_eq!(obj.len(), 1);
    assert_eq!(obj["0"]["id"], "bldg_001");
    assert_eq!(obj["0"]["attributes"]["uro:buildingStructureType"], "Wooden");
    let second = append(Some(first), 0, &record("bldg_002", &["c"]));
    let v: serde_json::Value = serde_json::from_str(&second).unwrap();
    let obj = v.as_object().unwrap();
    assert_eq!(obj.len(), 1);
    assert_eq!(obj["0"]["id"], "bldg_002");
}

#[test]
fn other_entries_are_kept() {
    let existing = r#"{"5": {"id": "old"}}"#.to_string();
    let out = append(Some(existing), 0, &record("bldg_001", &[]));
    let v: serde_json::Value = serde_json::from_str(&out).unwrap();
    assert_eq!(v.as_object().unwrap().len(), 2);
    assert_eq!(v["5"]["id"], "old");
}

#[test]
fn stid_set_survive_the_ledger_round_trip() {
    let cells = ["18/1/2/3", "18/1/2/4", "18/9/9/9"];
    let r = record("b", &cells);
    let out = append(None, 0, &r);
    let v: serde_json::Value = serde_json::from_str(&out).unwrap();
    let back: HashSet<String> = v["0"]["stid_set"]
        .as_array()
        .unwrap()
        .iter()
        .map(|s| s.as_str().unwrap().to_string())
        .collect();
    let expected: HashSet<String> = cells.iter().map(|c| c.to_string()).collect();
    assert_eq!(back, expected);
}

#[test]
fn attribute_info_last_write_wins() {
    let mut r = BuildingInfo::new();
    citygml_stid::scan::record_attribute(&mut r, "uro:a".to_string(), "1".to_string());
    citygml_stid::scan::record_attribute(&mut r, "uro:b".to_string(), "2".to_string());
    citygml_stid::scan::record_attribute(&mut r, "uro:a".to_string(), "3".to_string());
    assert_eq!(r.attribute_info_map.len(), 2);
    assert_eq!(r.attribute_info_map.get(&"uro:a".to_string()), Some(&"3".to_string()));
}

#[test]
fn unreadable_ledgers_are_errors() {
    let r = record("b", &["a"]);
    assert_eq!(append_record(&Some("{\"0\": ".to_string()), 0, &r), Err(LedgerError::Parse));
    assert_eq!(append_record(&Some("[1, 2]".to_string()), 0, &r), Err(LedgerError::NotAnObject));
    assert!(append_record(&Some("null".to_string()), 0, &r).is_ok());
    assert!(load_ledger(&Some("  ".to_string())).unwrap().is_empty());
}

#[test]
fn entry_lists_cells_and_attributes() {
    let r = record("b", &["x", "y"]);
    let e = ledger_entry(&r);
    assert_eq!(e.id, "b");
    assert_eq!(e.stid_set, vec!["x".to_string(), "y".to_string()]);
    assert_eq!(e.attributes, vec![("uro:buildingStructureType".to_string(), "Wooden".to_string())]);
}

#[test]
fn example_building_gives_exact_ledger_text() {
    let mut r = BuildingInfo::new();
    r.building_id = "bldg_001".to_string();
    citygml_stid::scan::record_attribute(
        &mut r,
        "uro:buildingStructureType".to_string(),
        "Wooden".to_string(),
    );
    let out = append_record(&None, 0, &r).unwrap();
    assert_eq!(
        out,
        r#"{"0":{"attributes":{"uro:buildingStructureType":"Wooden"},"id":"bldg_001","stid_set":[]}}"#
    );
}

#[test]
fn saving_the_same_record_twice_gives_the_same_ledger() {
    let r = record("bldg_001", &["a", "b"]);
    let once = append(Some(r#"{"7": 1}"#.to_string()), 0, &r);
    let twice = append(Some(once.clone()), 0, &r);
    let a: serde_json::Value = serde_json::from_str(&once).unwrap();
    let b: serde_json::Value = serde_json::from_str(&twice).unwrap();
    assert_eq!(a, b);
    assert_eq!(b["0"]["stid_set"].as_array().unwrap().len(), 2);
}

#[test]
fn scalar_ledgers_are_not_objects() {
    let r = record("b", &[]);
    assert_eq!(append_record(&Some("42".to_string()), 0, &r), Err(LedgerError::NotAnObject));
    assert_eq!(append_record(&Some("\"x\"".to_string()), 0, &r), Err(LedgerError::NotAnObject));
}
