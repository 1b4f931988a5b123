use arklib_android::index::RustResourcesIndex;
use arklib_android::meta::{ResourceId, ResourceKind, ResourceMeta};
use arklib_android::time::Timestamp;

fn meta(crc32: u32, name: &str) -> ResourceMeta {
    ResourceMeta {
        id: ResourceId { file_size: 10, crc32 },
        name: Some(name.to_string()),
        extension: None,
        modified: Timestamp::from_millis(0).unwrap(),
        kind: Some(ResourceKind::PlainText),
    }
}

fn sample() -> RustResourcesIndex {
    RustResourcesIndex::init(
        "/root".to_string(),
        vec![
            ("/root/a/one.txt".to_string(), meta(1, "one")),
            ("/root/ab/two.txt".to_string(), meta(2, "two")),
            ("/root/a/three.txt".to_string(), meta(3, "three")),
        ],
    )
}

fn paths(entries: &[(String, ResourceMeta)]) -> Vec<&str> {
    entries.iter().map(|e| e.0.as_str()).collect()
}

#[test]
fn init_keeps_the_later_of_two_entries_for_one_path() {
    let index = RustResourcesIndex::init(
        "/root".to_string(),
        vec![
            ("/root/x".to_string(), meta(1, "first")),
            ("/root/y".to_string(), meta(2, "y")),
            ("/root/x".to_string(), meta(3, "second")),
        ],
    );
    let all = index.listResources(None);
    assert_eq!(paths(&all), vec!["/root/x", "/root/y"]);
    assert_eq!(all[0].1, meta(3, "second"));
}

#[test]
fn list_filters_by_whole_path_components() {
    let index = sample();
    assert_eq!(paths(&index.listResources(Some("/root/a"))), vec!["/root/a/one.txt", "/root/a/three.txt"]);
    assert_eq!(paths(&index.listResources(Some("/root/a/"))), vec!["/root/a/one.txt", "/root/a/three.txt"]);
    assert_eq!(paths(&index.listResources(Some("/root/ab"))), vec!["/root/ab/two.txt"]);
    assert!(index.listResources(Some("/other")).is_empty());
    assert_eq!(index.listResources(None).len(), 3);
}

#[test]
fn get_path_and_meta_match_the_widened_id() {
    let index = sample();
    assert_eq!(index.getPath(2), Some("/root/ab/two.txt".to_string()));
    assert_eq!(index.getMeta(3), Some(meta(3, "three")));
    assert_eq!(index.getPath(4), None);
    assert_eq!(index.getMeta(4), None);
    // only the low 32 bits match: not found by the exact lookups
    assert_eq!(index.getPath(0x1_0000_0002), None);
    assert_eq!(index.getMeta(0x1_0000_0002), None);
}

#[test]
fn contains_matches_the_low_bits_of_the_id() {
    let index = sample();
    assert!(index.contains(1));
    assert!(index.contains(0x1_0000_0001));
    assert!(!index.contains(9));
}

#[test]
fn update_replaces_or_adds() {
    let mut index = sample();
    assert_eq!(index.updateResource("/root/a/one.txt".to_string(), meta(7, "new")), Some(meta(1, "one")));
    assert_eq!(index.getPath(7), Some("/root/a/one.txt".to_string()));
    assert_eq!(index.getPath(1), None);
    assert_eq!(index.updateResource("/root/c".to_string(), meta(8, "c")), None);
    assert_eq!(paths(&index.listResources(None)), vec![
        "/root/a/one.txt",
        "/root/ab/two.txt",
        "/root/a/three.txt",
        "/root/c",
    ]);
}

#[test]
fn remove_takes_out_the_first_match() {
    let mut index = sample();
    index.updateResource("/root/dup".to_string(), meta(2, "dup"));
    assert_eq!(index.remove(0x1_0000_0002), Some("/root/ab/two.txt".to_string()));
    assert_eq!(index.remove(2), Some("/root/dup".to_string()));
    assert_eq!(index.remove(2), None);
    assert_eq!(paths(&index.listResources(None)), vec!["/root/a/one.txt", "/root/a/three.txt"]);
}

#[test]
fn reindex_reports_deleted_and_added_entries() {
    let mut index = sample();
    let diff = index.reindex(vec![
        ("/root/a/one.txt".to_string(), meta(1, "one")),
        ("/root/a/three.txt".to_string(), meta(30, "three")),
        ("/root/d".to_string(), meta(4, "d")),
    ]);
    assert_eq!(paths(&diff.deleted), vec!["/root/ab/two.txt", "/root/a/three.txt"]);
    assert_eq!(diff.deleted[1].1, meta(3, "three"));
    assert_eq!(paths(&diff.added), vec!["/root/a/three.txt", "/root/d"]);
    assert_eq!(diff.added[0].1, meta(30, "three"));
    assert_eq!(paths(&index.listResources(None)), vec!["/root/a/one.txt", "/root/a/three.txt", "/root/d"]);
}

#[test]
fn reindex_of_an_unchanged_tree_reports_nothing() {
    let mut index = sample();
    let diff = index.reindex(sample().listResources(None));
    assert!(diff.deleted.is_empty());
    assert!(diff.added.is_empty());
}

#[test]
fn removed_path_is_no_longer_listed() {
    let mut index = sample();
    let path = index.remove(3).unwrap();
    assert!(index.listResources(None).iter().all(|e| e.0 != path));
    assert!(!index.contains(3));
}
