use pvs::{
    depth_of, next_chunk, parent_id, parse_index, split_fields, supplied_id, to_arr_3, to_arr_9,
    ArgumentError, Config, FormatError, MultiBuf, SceneItem,
};

#[test]
fn it_works() {
    assert_eq!(2 + 2, 4);
}

#[test]
fn to_arr_3_takes_three() {
    assert_eq!(to_arr_3(vec![1, 2, 3]), Ok([1, 2, 3]));
    assert_eq!(to_arr_3(vec![1, 2]), Err(FormatError::FieldCount { expected: 3, found: 2 }));
    assert_eq!(to_arr_3(vec![0.5f32, 1.0, 2.0]), Ok([0.5f32, 1.0, 2.0]));
}

#[test]
fn to_arr_9_takes_nine() {
    assert_eq!(to_arr_9((1..=9).collect::<Vec<u8>>()), Ok([1, 2, 3, 4, 5, 6, 7, 8, 9]));
    assert_eq!(to_arr_9(vec![0u8; 10]), Err(FormatError::FieldCount { expected: 9, found: 10 }));
}

#[test]
fn split_fields_keeps_empty_fields() {
    assert_eq!(split_fields("1,0,0"), vec!["1", "0", "0"]);
    assert_eq!(split_fields(""), vec![""]);
    assert_eq!(split_fields(",a,"), vec!["", "a", ""]);
    assert_eq!(split_fields("0.5"), vec!["0.5"]);
}

#[test]
fn parse_index_reads_decimals() {
    assert_eq!(parse_index("0"), Some(0));
    assert_eq!(parse_index("42"), Some(42));
    assert_eq!(parse_index("+7"), Some(7));
    assert_eq!(parse_index(""), None);
    assert_eq!(parse_index("+"), None);
    assert_eq!(parse_index("-1"), None);
    assert_eq!(parse_index("4a"), None);
    assert_eq!(parse_index("18446744073709551616"), None);
    assert_eq!(parse_index("18446744073709551615"), Some(usize::MAX));
}

#[test]
fn path_identifiers() {
    assert_eq!(depth_of(""), 0);
    assert_eq!(depth_of("/109"), 1);
    assert_eq!(depth_of("/109/104"), 2);
    assert_eq!(supplied_id(""), "/");
    assert_eq!(supplied_id("/109"), "/109");
    assert_eq!(parent_id("/"), None);
    assert_eq!(parent_id("/109"), Some("/".to_string()));
    assert_eq!(parent_id("/109/104"), Some("/109".to_string()));
    assert_eq!(parent_id("abc"), Some("/".to_string()));
}

#[test]
fn scene_item_new_for_root_and_leaf() {
    let root = SceneItem::new("", "root", "1", None, None);
    assert_eq!(root.depth, 0);
    assert_eq!(root.supplied_id, "/");
    assert_eq!(root.parent_id, None);
    assert!(root.source.is_none());

    let leaf = SceneItem::new("/1/2", "bolt", "1", Some("bolt.ol"), Some(vec![]));
    assert_eq!(leaf.depth, 2);
    assert_eq!(leaf.supplied_id, "/1/2");
    assert_eq!(leaf.parent_id, Some("/1".to_string()));
    let source = leaf.source.unwrap();
    assert_eq!(source.file_name, "bolt.ol");
    assert_eq!(source.supplied_part_id, "bolt");
    assert_eq!(source.supplied_revision_id, "1");
}

#[test]
fn next_chunk_walks_the_chunks() {
    let mut buf = MultiBuf::new(vec![b"fearless".to_vec(), b"concurrency".to_vec()]);
    assert_eq!(next_chunk(&mut buf), b"fearless");
    assert_eq!(next_chunk(&mut buf), b"concurrency");
    assert_eq!(next_chunk(&mut buf), b"");
    assert_eq!(buf.pos(), 3);
}

#[test]
fn config_reads_two_paths() {
    let args = |v: &[&str]| v.iter().map(|s| s.to_string()).collect::<Vec<String>>();
    let c = Config::new(&args(&["pvs", "in.xml", "out.json"])).unwrap();
    assert_eq!(c.src, "in.xml");
    assert_eq!(c.dst, "out.json");
    assert!(matches!(Config::new(&args(&["pvs"])), Err(ArgumentError::MissingSrc)));
    assert!(matches!(Config::new(&args(&["pvs", "in.xml"])), Err(ArgumentError::MissingDst)));
    assert_eq!(ArgumentError::MissingSrc.message(), "Must specify src path");
}
