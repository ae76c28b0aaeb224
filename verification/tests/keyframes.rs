use ultracam::keyframes::{
    is_keyframe_report, parse_and_save_keyframe, parse_keyframe, sequence_names, SequenceStore,
};

const REPORT: &str =
    "KEYFRAME 0 Pos: 1.5 2 3 Forward: 0 0 1 Up: 0 1 0 Fov: 50 Duration: 2 Lerp: 1";

fn report(index: &str, fov: &str) -> String {
    format!("KEYFRAME {index} Pos: 1 2 3 Forward: 4 5 6 Up: 7 8 9 Fov: {fov} Duration: 3 Lerp: 0")
}

#[test]
fn report_fields_land_in_place() {
    let (index, kf) = parse_keyframe(REPORT).unwrap();
    assert_eq!(index, "0");
    assert_eq!(kf.pos, ["1.5".to_string(), "2".to_string(), "3".to_string()]);
    assert_eq!(kf.forward, ["0".to_string(), "0".to_string(), "1".to_string()]);
    assert_eq!(kf.up, ["0".to_string(), "1".to_string(), "0".to_string()]);
    assert_eq!(kf.fov, "50");
    assert_eq!(kf.duration, "2");
    assert_eq!(kf.lerp, "1");
}

#[test]
fn incomplete_report_is_refused() {
    assert!(parse_keyframe("KEYFRAME 0 Pos: 1 2 3").is_none());
    let mut store = SequenceStore::new();
    assert!(!parse_and_save_keyframe(&mut store, "Default", "KEYFRAME 0 Pos: 1 2 3"));
    assert!(sequence_names(&store).is_empty());
}

#[test]
fn saved_frame_is_read_back() {
    let mut store = SequenceStore::new();
    assert!(parse_and_save_keyframe(&mut store, "Default", &report("0", "40")));
    assert!(parse_and_save_keyframe(&mut store, "Default", &report("1", "45")));
    let seq = store.sequence("Default").unwrap();
    assert_eq!(seq.len(), 2);
    let (k, v) = seq.entry_at(1);
    assert_eq!(k, "1");
    assert_eq!(v.fov, "45");
    assert_eq!(seq.get("0").unwrap().fov, "40");
    assert!(store.sequence("Other").is_none());
}

#[test]
fn same_index_replaces_frame() {
    let mut store = SequenceStore::new();
    parse_and_save_keyframe(&mut store, "S", &report("2", "10"));
    parse_and_save_keyframe(&mut store, "S", &report("2", "20"));
    let seq = store.sequence("S").unwrap();
    assert_eq!(seq.len(), 1);
    assert_eq!(seq.get("2").unwrap().fov, "20");
}

#[test]
fn names_and_frames_are_in_string_order() {
    let mut store = SequenceStore::new();
    for name in ["b", "a", "c", "a"] {
        parse_and_save_keyframe(&mut store, name, &report("0", "1"));
    }
    assert_eq!(sequence_names(&store), vec!["a", "b", "c"]);
    for index in ["10", "2", "1"] {
        parse_and_save_keyframe(&mut store, "a", &report(index, "1"));
    }
    let seq = store.sequence("a").unwrap();
    let keys: Vec<String> = (0..seq.len()).map(|i| seq.entry_at(i).0.clone()).collect();
    assert_eq!(keys, vec!["0", "1", "10", "2"]);
}

#[test]
fn empty_sequences_are_kept() {
    let mut store = SequenceStore::new();
    store.ensure_sequence("empty");
    store.ensure_sequence("empty");
    assert_eq!(sequence_names(&store), vec!["empty"]);
    assert_eq!(store.sequence("empty").unwrap().len(), 0);
}

#[test]
fn keyframe_lines_are_recognised() {
    assert!(is_keyframe_report(REPORT));
    assert!(!is_keyframe_report("keyframe 0"));
    assert!(!is_keyframe_report("hello"));
}
