use pvs::{
    create_items, flatten, placement_of, Component, ComponentInstance, FormatError, SceneItem,
};

fn inst(id: &str, index: &str, orientation: Option<&str>, translation: Option<&str>) -> ComponentInstance {
    ComponentInstance {
        child_index: index.to_string(),
        instance_id: id.to_string(),
        orientation: orientation.map(|s| s.to_string()),
        translation: translation.map(|s| s.to_string()),
        hide_self: false,
        hide_child: false,
    }
}

fn leaf(name: &str, file: &str) -> Component {
    Component { name: name.to_string(), geometry_source: Some(file.to_string()), instances: vec![] }
}

fn composite(name: &str, instances: Vec<ComponentInstance>) -> Component {
    Component { name: name.to_string(), geometry_source: None, instances }
}

fn strings(v: &[String]) -> Vec<&str> {
    v.iter().map(|s| s.as_str()).collect()
}

fn assembly() -> Vec<Component> {
    vec![
        leaf("PN1, Bolt", "PN1.ol"),
        leaf("PN0, Washer", "PN0.ol"),
        composite(
            "PN2, Subassembly",
            vec![
                inst("104", "0", Some("1,0,0,0,-1,0,0,0,-1"), Some("0,0.045,0.045")),
                inst("107", "1", Some("1,0,0,0,0,-1,0,1,0"), Some("0,0.03,0.045")),
            ],
        ),
        composite(
            "PN3, Assembly",
            vec![
                inst("109", "2", None, None),
                inst("107", "1", Some("1,0,0,0,1,0.0000001,0,0,1"), Some("0,0,0.03")),
            ],
        ),
    ]
}

fn ids(items: &[SceneItem]) -> Vec<&str> {
    items.iter().map(|i| i.supplied_id.as_str()).collect()
}

#[test]
fn end_to_end_pre_order() {
    let items = flatten(&assembly()).unwrap().items;
    assert_eq!(5, items.len());
    assert_eq!(ids(&items), vec!["/", "/109", "/109/104", "/109/107", "/107"]);
    let depths: Vec<usize> = items.iter().map(|i| i.depth).collect();
    assert_eq!(depths, vec![0, 1, 2, 2, 1]);
    let parents: Vec<Option<&str>> = items.iter().map(|i| i.parent_id.as_deref()).collect();
    assert_eq!(parents, vec![None, Some("/"), Some("/109"), Some("/109"), Some("/")]);

    assert!(items[0].source.is_none() && items[0].placements.is_none());
    assert!(items[1].source.is_none() && items[1].placements.is_none());

    let bolt = items[2].source.as_ref().unwrap();
    assert_eq!(bolt.file_name, "PN1.ol");
    assert_eq!(bolt.supplied_part_id, "PN1, Bolt");
    assert_eq!(bolt.supplied_revision_id, "1");
    let chain = items[2].placements.as_ref().unwrap();
    assert_eq!(chain.len(), 2);
    assert_eq!(strings(&chain[0].orientation), vec!["1", "0", "0", "0", "1", "0", "0", "0", "1"]);
    assert_eq!(strings(&chain[0].translation), vec!["0", "0", "0"]);
    assert_eq!(strings(&chain[1].orientation), vec!["1", "0", "0", "0", "-1", "0", "0", "0", "-1"]);
    assert_eq!(strings(&chain[1].translation), vec!["0", "0.045", "0.045"]);

    let washer = items[3].source.as_ref().unwrap();
    assert_eq!(washer.file_name, "PN0.ol");
    assert_eq!(washer.supplied_part_id, "PN0, Washer");

    let direct = &items[4];
    assert_eq!(direct.source.as_ref().unwrap().file_name, "PN0.ol");
    let chain = direct.placements.as_ref().unwrap();
    assert_eq!(chain.len(), 1);
    assert_eq!(chain[0].orientation[5], "0.0000001");
    assert_eq!(strings(&chain[0].translation), vec!["0", "0", "0.03"]);
    assert!(items.iter().all(|i| i.material_override.is_none()));
}

#[test]
fn root_item_has_no_parent() {
    let items = flatten(&assembly()).unwrap().items;
    assert_eq!(items[0].depth, 0);
    assert_eq!(items[0].supplied_id, "/");
    assert_eq!(items[0].parent_id, None);
}

#[test]
fn inert_component_gives_nothing() {
    let cat = vec![Component { name: "empty".to_string(), geometry_source: None, instances: vec![] }];
    assert_eq!(flatten(&cat).unwrap().items.len(), 0);

    let cat = vec![
        Component { name: "empty".to_string(), geometry_source: None, instances: vec![] },
        composite("root", vec![inst("5", "0", None, None)]),
    ];
    let items = flatten(&cat).unwrap().items;
    assert_eq!(ids(&items), vec!["/"]);
}

#[test]
fn hidden_instances_are_skipped() {
    let mut hidden_self = inst("1", "0", None, None);
    hidden_self.hide_self = true;
    let mut hidden_child = inst("2", "0", Some("not,a,rotation"), None);
    hidden_child.hide_child = true;
    let mut hidden_bad_index = inst("3", "x", None, None);
    hidden_bad_index.hide_self = true;
    let cat = vec![
        leaf("part", "part.ol"),
        composite("root", vec![hidden_self, hidden_child, hidden_bad_index, inst("4", "0", None, None)]),
    ];
    let items = flatten(&cat).unwrap().items;
    assert_eq!(ids(&items), vec!["/", "/4"]);
}

#[test]
fn root_leaf_has_empty_chain() {
    let cat = vec![leaf("part", "part.ol")];
    let items = flatten(&cat).unwrap().items;
    assert_eq!(items.len(), 1);
    assert_eq!(items[0].supplied_id, "/");
    assert_eq!(items[0].placements.as_ref().unwrap().len(), 0);
    assert_eq!(items[0].source.as_ref().unwrap().file_name, "part.ol");
}

#[test]
fn create_items_from_chosen_root() {
    let cat = assembly();
    let items = create_items(&cat, 2).unwrap().items;
    assert_eq!(ids(&items), vec!["/", "/104", "/107"]);
    assert_eq!(create_items(&cat, 9), Err(FormatError::IndexOutOfRange { index: 9 }));
}

#[test]
fn empty_catalog_is_refused() {
    assert_eq!(flatten(&vec![]), Err(FormatError::EmptyCatalog));
}

#[test]
fn out_of_range_index_is_refused() {
    let cat = vec![leaf("part", "part.ol"), composite("root", vec![inst("1", "7", None, None)])];
    assert_eq!(flatten(&cat), Err(FormatError::IndexOutOfRange { index: 7 }));
}

#[test]
fn unreadable_index_is_refused() {
    let cat = vec![leaf("part", "part.ol"), composite("root", vec![inst("1", "-1", None, None)])];
    assert_eq!(flatten(&cat), Err(FormatError::BadIndex));
}

#[test]
fn wrong_field_count_is_refused() {
    let cat = vec![leaf("part", "part.ol"), composite("root", vec![inst("1", "0", Some("1,0,0"), None)])];
    assert_eq!(flatten(&cat), Err(FormatError::FieldCount { expected: 9, found: 3 }));
    let cat = vec![leaf("part", "part.ol"), composite("root", vec![inst("1", "0", None, Some("1,2"))])];
    assert_eq!(flatten(&cat), Err(FormatError::FieldCount { expected: 3, found: 2 }));
}

#[test]
fn cycle_is_refused() {
    let cat = vec![
        composite("a", vec![inst("1", "1", None, None)]),
        composite("b", vec![inst("2", "0", None, None)]),
    ];
    assert_eq!(flatten(&cat), Err(FormatError::Cycle));
    let cat = vec![composite("self", vec![inst("1", "0", None, None)])];
    assert_eq!(flatten(&cat), Err(FormatError::Cycle));
}

#[test]
fn default_placement_fields() {
    let p = placement_of(&inst("1", "0", None, None)).unwrap();
    assert_eq!(strings(&p.orientation), vec!["1", "0", "0", "0", "1", "0", "0", "0", "1"]);
    assert_eq!(strings(&p.translation), vec!["0", "0", "0"]);
}

#[test]
fn every_accepted_placement_is_handed_out() {
    let flat = flatten(&assembly()).unwrap();
    let orientations: Vec<Vec<&str>> = flat.placements.iter().map(|p| strings(&p.orientation)).collect();
    assert_eq!(flat.placements.len(), 4);
    assert_eq!(orientations[0], vec!["1", "0", "0", "0", "1", "0", "0", "0", "1"]);
    assert_eq!(orientations[1], vec!["1", "0", "0", "0", "-1", "0", "0", "0", "-1"]);
    assert_eq!(orientations[2], vec!["1", "0", "0", "0", "0", "-1", "0", "1", "0"]);
    assert_eq!(orientations[3][5], "0.0000001");
}

#[test]
fn placement_above_inert_component_is_handed_out() {
    let cat = vec![
        Component { name: "empty".to_string(), geometry_source: None, instances: vec![] },
        composite("root", vec![inst("1", "0", Some("a,b,c,d,e,f,g,h,i"), None)]),
    ];
    let flat = flatten(&cat).unwrap();
    assert_eq!(ids(&flat.items), vec!["/"]);
    assert_eq!(flat.placements.len(), 1);
    assert_eq!(strings(&flat.placements[0].orientation), vec!["a", "b", "c", "d", "e", "f", "g", "h", "i"]);
}
