use iron_sendme::paths::get_name;
use iron_sendme::sendme::{collection_receive_result, raw_receive_result, ReceivedFile};

const PATHS: &[&str] = &["", "/", ".", "..", "a/..", "/home/u/a.txt", "dir/", "x/./", "...", "/tmp/photos//"];

#[test]
fn every_name_is_one_plain_component() {
    for p in PATHS {
        let n = get_name(p);
        assert!(!n.is_empty());
        assert!(!n.contains('/'));
        assert_ne!(n, ".");
        assert_ne!(n, "..");
    }
}

#[test]
fn sent_name_survives_receive() {
    for p in PATHS {
        let name = get_name(p);
        let files = vec![ReceivedFile { name: name.clone(), size: 5 }];
        for out in ["/dl", "/dl/", "", "rel"] {
            let r = collection_receive_result(out, &files).unwrap();
            assert_eq!(r.file_name, name);
            assert_eq!(get_name(&r.file_path), name);
        }
    }
}

#[test]
fn raw_receive_path_names_file() {
    for out in ["/dl", "/dl/", ""] {
        let r = raw_receive_result(out, [0x5au8; 32], 1);
        assert_eq!(get_name(&r.file_path), r.file_name);
    }
}
