use citygml_stid::codespace::parse_code_space;
use citygml_stid::geometry::fan_triangles;
use citygml_stid::markup::{local_name_is, MarkupEvent};
use citygml_stid::scan::{extension_tag, BuildingScan, ScanAction};
use citygml_stid::textmap::TextMap;

fn start(name: &str, attrs: &[(&str, &str)]) -> MarkupEvent {
    MarkupEvent::Start {
        name: name.to_string(),
        attrs: attrs.iter().map(|(k, v)| (k.to_string(), v.to_string())).collect(),
    }
}

fn end(name: &str) -> MarkupEvent {
    MarkupEvent::End { name: name.to_string() }
}

fn text(t: &str) -> MarkupEvent {
    MarkupEvent::Text { text: t.to_string() }
}

fn definition(name: &str, desc: &str) -> Vec<MarkupEvent> {
    vec![
        start("gml:Definition", &[]),
        start("gml:description", &[]),
        text(desc),
        end("gml:description"),
        start("gml:name", &[]),
        text(name),
        end("gml:name"),
        end("gml:Definition"),
    ]
}

fn wooden_code_list() -> TextMap {
    let mut evs = vec![start("gml:Dictionary", &[])];
    evs.extend(definition("1030", "Wooden"));
    evs.push(end("gml:Dictionary"));
    parse_code_space(&evs)
}

#[test]
fn code_list_maps_code_to_description() {
    let map = wooden_code_list();
    assert_eq!(map.len(), 1);
    assert_eq!(map.get(&"1030".to_string()), Some(&"Wooden".to_string()));
}

#[test]
fn code_list_skips_incomplete_records() {
    let mut evs = definition("1030", "");
    evs.extend(definition("", "Wooden"));
    evs.extend(vec![start("Definition", &[]), start("x:name", &[]), text("2"), end("x:name"), end("Definition")]);
    let map = parse_code_space(&evs);
    assert_eq!(map.len(), 0);
}

#[test]
fn code_list_ignores_namespace_prefix() {
    let mut evs = definition("1", "a");
    evs.extend(vec![
        start("Definition", &[]),
        start("name", &[]),
        text("2"),
        end("name"),
        start("other:description", &[]),
        text("b"),
        end("other:description"),
        end("Definition"),
    ]);
    evs.extend(definition("1", "c"));
    let map = parse_code_space(&evs);
    assert_eq!(map.len(), 2);
    assert_eq!(map.get(&"1".to_string()), Some(&"c".to_string()));
    assert_eq!(map.get(&"2".to_string()), Some(&"b".to_string()));
}

#[test]
fn local_names_and_extension_tags() {
    assert!(local_name_is("gml:name", "name"));
    assert!(local_name_is("name", "name"));
    assert!(!local_name_is("gml:names", "name"));
    assert!(extension_tag("uro:buildingStructureType"));
    assert!(extension_tag("uro:"));
    assert!(!extension_tag("bldg:Building"));
    assert!(!extension_tag("xuro:a"));
}

fn feed(scan: &mut BuildingScan, ev: &MarkupEvent) -> ScanAction {
    match ev {
        MarkupEvent::Start { name, attrs } => scan.on_start(name, attrs),
        MarkupEvent::End { name } => scan.on_end(name),
        MarkupEvent::Text { text } => scan.on_text(text).unwrap(),
    }
}

#[test]
fn scan_builds_record_of_first_building() {
    let events = vec![
        start("core:CityModel", &[]),
        start("bldg:Building", &[("gml:id", "bldg_001")]),
        start("bldg:lod0RoofEdge", &[]),
        start("gml:posList", &[]),
        text("0 0 0 1 0 0 1 1 0 0 1 0"),
        end("gml:posList"),
        end("bldg:lod0RoofEdge"),
        start("uro:buildingStructureType", &[("codeSpace", "../../codelists/Building_buildingStructureType.xml")]),
        text("1030"),
        end("uro:buildingStructureType"),
        end("bldg:Building"),
        start("bldg:Building", &[("gml:id", "bldg_002")]),
    ];
    let mut scan = BuildingScan::new();
    let mut finished = false;
    for ev in &events {
        match feed(&mut scan, ev) {
            ScanAction::Continue => {}
            ScanAction::ResolveCodeSpace { reference } => {
                assert_eq!(reference, "../../codelists/Building_buildingStructureType.xml");
                scan.use_code_list(wooden_code_list());
            }
            ScanAction::CoverRing { points } => {
                assert_eq!(points.len(), 4);
                let covers: Vec<Vec<String>> = fan_triangles(&points)
                    .iter()
                    .map(|(a, b, c)| vec![format!("c{}", a), format!("c{}", b), format!("c{}", c)])
                    .collect();
                scan.add_ring_cells(&points, &covers);
            }
            ScanAction::Finished => {
                finished = true;
                break;
            }
        }
    }
    assert!(finished);
    assert_eq!(scan.record.building_id, "bldg_001");
    assert!(!scan.record.stid_set.is_empty());
    assert_eq!(scan.record.stid_set.len(), 4);
    assert_eq!(
        scan.record.attribute_info_map.get(&"uro:buildingStructureType".to_string()),
        Some(&"Wooden".to_string())
    );
}

#[test]
fn scan_keeps_unknown_code_verbatim_and_ignores_text_outside_building() {
    let mut scan = BuildingScan::new();
    assert!(matches!(scan.on_text(&"1 2".to_string()), Ok(ScanAction::Continue)));
    scan.on_start(&"bldg:Building".to_string(), &vec![]);
    let act = scan.on_start(&"uro:x".to_string(), &vec![("codeSpace".to_string(), "a.xml".to_string())]);
    assert!(matches!(act, ScanAction::ResolveCodeSpace { .. }));
    scan.use_code_list(wooden_code_list());
    scan.on_text(&"9999".to_string()).unwrap();
    assert_eq!(scan.record.attribute_info_map.get(&"uro:x".to_string()), Some(&"9999".to_string()));
    assert_eq!(scan.record.building_id, "");
    scan.on_end(&"uro:x".to_string());
    assert!(scan.code_list.is_none());
    assert!(matches!(scan.on_end(&"bldg:Building".to_string()), ScanAction::Finished));
    assert!(matches!(scan.on_start(&"bldg:Building".to_string(), &vec![]), ScanAction::Finished));
}

#[test]
fn scan_surfaces_bad_geometry() {
    let mut scan = BuildingScan::new();
    scan.on_start(&"bldg:Building".to_string(), &vec![]);
    scan.on_start(&"gml:posList".to_string(), &vec![]);
    assert!(scan.on_text(&"1 2 x".to_string()).is_err());
}

#[test]
fn extension_text_without_code_list_is_recorded_verbatim() {
    let mut scan = BuildingScan::new();
    scan.on_start(&"bldg:Building".to_string(), &vec![("gml:id".to_string(), "b1".to_string())]);
    let act = scan.on_start(&"uro:buildingID".to_string(), &vec![]);
    assert!(matches!(act, ScanAction::Continue));
    scan.on_text(&"10201-bldg-1".to_string()).unwrap();
    assert_eq!(
        scan.record.attribute_info_map.get(&"uro:buildingID".to_string()),
        Some(&"10201-bldg-1".to_string())
    );
    assert_eq!(scan.record.building_id, "b1");
}

#[test]
fn add_attribute_info_does_nothing() {
    citygml_stid::scan::addAttributeInfo();
}
