use iron_sendme::paths::{join_path, relative_entry_name};
use iron_sendme::collection::{build_collection, export_plan, CollectionBuilder, DuplicateKind};
use iron_sendme::error::SendmeError;
use iroh_blobs::format::collection::Collection;


fn entries(c: &Collection) -> Vec<(String, [u8; 32])> {
    c.iter().map(|(n, h)| (n.clone(), *h.as_bytes())).collect()
}

#[test]
fn builder_collects_entries_in_order() {
    let mut b = CollectionBuilder::new();
    assert_eq!(b.reserve(&"a.txt".to_string(), DuplicateKind::Entry), Ok(()));
    assert!(b.complete([1u8; 32]));
    assert_eq!(b.reserve(&"dir/b.txt".to_string(), DuplicateKind::Entry), Ok(()));
    assert!(b.complete([2u8; 32]));
    let c = b.finish();
    assert_eq!(
        entries(&c),
        vec![("a.txt".to_string(), [1u8; 32]), ("dir/b.txt".to_string(), [2u8; 32])]
    );
}

#[test]
fn builder_refuses_duplicate_entry() {
    let mut b = CollectionBuilder::new();
    b.reserve(&"x".to_string(), DuplicateKind::Entry).unwrap();
    assert!(b.complete([3u8; 32]));
    assert_eq!(
        b.reserve(&"x".to_string(), DuplicateKind::Entry),
        Err(SendmeError::DuplicateEntry("x".to_string()))
    );
    assert_eq!(b.reserve(&"y".to_string(), DuplicateKind::Entry), Ok(()));
    let c = b.finish();
    assert_eq!(entries(&c).len(), 1);
}

#[test]
fn builder_refuses_duplicate_file_name_of_pending() {
    let mut b = CollectionBuilder::new();
    b.reserve(&"same.jpg".to_string(), DuplicateKind::FileName).unwrap();
    assert_eq!(
        b.reserve(&"same.jpg".to_string(), DuplicateKind::FileName),
        Err(SendmeError::DuplicateFileName("same.jpg".to_string()))
    );
    assert!(b.complete([4u8; 32]));
    assert_eq!(entries(&b.finish()), vec![("same.jpg".to_string(), [4u8; 32])]);
}

#[test]
fn builder_new_reservation_replaces_uncompleted_one() {
    let mut b = CollectionBuilder::new();
    b.reserve(&"first".to_string(), DuplicateKind::Entry).unwrap();
    b.reserve(&"second".to_string(), DuplicateKind::Entry).unwrap();
    assert!(b.complete([6u8; 32]));
    assert_eq!(b.reserve(&"first".to_string(), DuplicateKind::Entry), Ok(()));
    assert_eq!(
        b.reserve(&"second".to_string(), DuplicateKind::Entry),
        Err(SendmeError::DuplicateEntry("second".to_string()))
    );
    assert!(b.complete([7u8; 32]));
    assert_eq!(
        entries(&b.finish()),
        vec![("second".to_string(), [6u8; 32]), ("first".to_string(), [7u8; 32])]
    );
}

#[test]
fn builder_complete_without_reservation_changes_nothing() {
    let mut b = CollectionBuilder::new();
    assert!(!b.complete([5u8; 32]));
    assert!(entries(&b.finish()).is_empty());
}

#[test]
fn build_collection_keeps_all_entries() {
    let input = vec![
        ("a".to_string(), [1u8; 32]),
        ("a".to_string(), [2u8; 32]),
        ("b/c".to_string(), [3u8; 32]),
    ];
    let c = build_collection(input.clone());
    assert_eq!(entries(&c), input);
    assert_eq!(c.len(), 3);
}

#[test]
fn export_plan_joins_names_onto_output() {
    let mut c = Collection::default();
    c.push("a.txt".to_string(), iroh_blobs::Hash::from_bytes([9u8; 32]));
    c.push("sub/b.txt".to_string(), iroh_blobs::Hash::from_bytes([8u8; 32]));
    let plan = export_plan("/out", &c);
    assert_eq!(plan.len(), 2);
    assert_eq!(plan[0].name, "a.txt");
    assert_eq!(plan[0].hash, [9u8; 32]);
    assert_eq!(plan[0].target, "/out/a.txt");
    assert_eq!(plan[1].target, "/out/sub/b.txt");
    assert_eq!(plan[1].hash, [8u8; 32]);
}

#[test]
fn directory_round_trip_targets_follow_walk() {
    let base = "/home/u/photos";
    let walked = ["/home/u/photos/a.jpg", "/home/u/photos/sub/b.jpg", "/home/u/photos/sub/c.jpg"];
    let mut b = CollectionBuilder::new();
    for (i, f) in walked.iter().enumerate() {
        let name = relative_entry_name(f, base);
        b.reserve(&name, DuplicateKind::Entry).unwrap();
        assert!(b.complete([i as u8; 32]));
    }
    let c = b.finish();
    let plan = export_plan("/dl", &c);
    assert_eq!(plan.len(), walked.len());
    for (i, f) in walked.iter().enumerate() {
        let rel = relative_entry_name(f, base);
        assert_eq!(plan[i].target, join_path("/dl", &rel));
        assert_eq!(plan[i].hash, [i as u8; 32]);
    }
    assert_eq!(plan[1].target, "/dl/sub/b.jpg");
}
