use iron_sendme::paths::{folder_entry_name, get_name, join_path, relative_entry_name};
use std::path::Path;

fn std_name(p: &str) -> String {
    Path::new(p)
        .file_name()
        .map(|n| n.to_string_lossy().to_string())
        .unwrap_or_else(|| "unknown".to_string())
}

const SAMPLES: &[&str] = &[
    "", "/", "//", ".", "..", "./", "../", "a", "a/", "a//", "/a", "/a/b", "/a/b/",
    "a/b/.", "a/b/./", "a/.", "./a", "a/..", "a/../", "/..", "/.", "a/./.", "...", "a/...",
    "photo.jpg", "/home/user/photo.jpg", "dir/sub/", "x//y//z", ".hidden", "a/.hidden/",
    "/storage/emulated/0/Download/file name.txt", "é/ü.txt",
];

#[test]
fn get_name_matches_std_file_name() {
    for p in SAMPLES {
        assert_eq!(get_name(p), std_name(p), "path {:?}", p);
    }
}

#[test]
fn get_name_examples() {
    assert_eq!(get_name("/home/user/report.pdf"), "report.pdf");
    assert_eq!(get_name("/home/user/photos/"), "photos");
    assert_eq!(get_name("/"), "unknown");
    assert_eq!(get_name("a/.."), "unknown");
    assert_eq!(get_name("a/b/."), "b");
}

#[test]
fn join_path_matches_std_join() {
    let bases = ["", "/", "/tmp", "/tmp/", "out", "out//", "."];
    let names = ["", "a", "a/b", "/abs", "..", "x.txt"];
    for b in bases {
        for n in names {
            let expected = Path::new(b).join(n).to_string_lossy().to_string();
            assert_eq!(join_path(b, n), expected, "join {:?} {:?}", b, n);
        }
    }
}

#[test]
fn joined_plain_name_reads_back() {
    for dir in ["", "/", "/tmp", "/tmp/", "a/b"] {
        let joined = join_path(dir, "file.bin");
        assert_eq!(get_name(&joined), "file.bin");
    }
}

#[test]
fn relative_entry_name_strips_base() {
    assert_eq!(relative_entry_name("/home/u/photos/a.jpg", "/home/u/photos"), "a.jpg");
    assert_eq!(relative_entry_name("/home/u/photos/sub/b.jpg", "/home/u/photos"), "sub/b.jpg");
}

#[test]
fn relative_entry_name_keeps_path_outside_base() {
    assert_eq!(relative_entry_name("photos/a.jpg", "/home/u/photos"), "photos/a.jpg");
    assert_eq!(relative_entry_name("/home/u/photosx/a.jpg", "/home/u/photos"), "/home/u/photosx/a.jpg");
}

#[test]
fn folder_entry_name_prefixes_folder() {
    assert_eq!(folder_entry_name("photos", "sub/b.jpg"), "photos/sub/b.jpg");
    assert_eq!(folder_entry_name("", "a"), "/a");
}
