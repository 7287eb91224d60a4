use iron_sendme::downloads::{android_downloads_dir, desktop_downloads_dir, ios_documents_dir};
use iron_sendme::progress::{receive_progress, send_progress, ReceiveStage, SendStage};
use iron_sendme::sendme_multi::{payload_display_name, payload_total_size, FileDataPayload};
use iron_sendme::sizes::{sum_sizes, walk_total_size, WalkEntry};
use iron_sendme::error::SendmeError;

#[test]
fn send_progress_stages() {
    let stages = [
        (SendStage::Initializing, "Initializing...", 0u64, 0u8),
        (SendStage::SettingUpConnection, "Setting up connection...", 0, 10),
        (SendStage::ImportingFiles, "Importing files...", 0, 20),
        (SendStage::StoringCollection, "Storing collection...", 0, 40),
        (SendStage::StartingServer, "Starting server...", 500, 60),
        (SendStage::GeneratingTicket, "Generating ticket...", 500, 80),
        (SendStage::ReadyToSend, "Ready to send", 500, 100),
    ];
    let mut last = None;
    for (stage, status, bytes, percent) in stages {
        let ev = send_progress(stage, 500);
        assert_eq!(ev.status, status);
        assert_eq!(ev.bytes_transferred, bytes);
        assert_eq!(ev.total_bytes, 500);
        assert_eq!(ev.percent, percent);
        if let Some(p) = last {
            assert!(p < ev.percent);
        }
        last = Some(ev.percent);
    }
}

#[test]
fn receive_progress_stages() {
    let ev = receive_progress(ReceiveStage::ConnectingToSender, 9);
    assert_eq!((ev.status.as_str(), ev.bytes_transferred, ev.total_bytes, ev.percent), ("Connecting to sender...", 0, 0, 0));
    let ev = receive_progress(ReceiveStage::EstablishingConnection, 9);
    assert_eq!((ev.status.as_str(), ev.percent), ("Establishing connection...", 10));
    let ev = receive_progress(ReceiveStage::ConnectingToPeer, 9);
    assert_eq!((ev.status.as_str(), ev.percent), ("Connecting to peer...", 20));
    let ev = receive_progress(ReceiveStage::Downloading, 9);
    assert_eq!((ev.status.as_str(), ev.total_bytes, ev.percent), ("Downloading...", 0, 30));
    let ev = receive_progress(ReceiveStage::Complete, 9);
    assert_eq!((ev.status.as_str(), ev.bytes_transferred, ev.total_bytes, ev.percent), ("Complete", 9, 9, 100));
}

#[test]
fn downloads_dirs() {
    assert_eq!(android_downloads_dir(), "/storage/emulated/0/Download");
    assert_eq!(ios_documents_dir(Some("/var/mobile".to_string())), Ok("/var/mobile/Documents".to_string()));
    assert_eq!(ios_documents_dir(None), Err("Could not determine home directory".to_string()));
    assert_eq!(
        desktop_downloads_dir(Some("/home/u/Dl".to_string()), Some("/home/u".to_string())),
        Ok("/home/u/Dl".to_string())
    );
    assert_eq!(desktop_downloads_dir(None, Some("/home/u".to_string())), Ok("/home/u/Downloads".to_string()));
    assert_eq!(
        desktop_downloads_dir(None, None),
        Err("Could not determine downloads directory".to_string())
    );
}

#[test]
fn sums_and_walks() {
    assert_eq!(sum_sizes(&vec![]), Some(0));
    assert_eq!(sum_sizes(&vec![1, 2, 3]), Some(6));
    assert_eq!(sum_sizes(&vec![u64::MAX, 0]), Some(u64::MAX));
    assert_eq!(sum_sizes(&vec![u64::MAX, 1]), None);
    let entries = vec![
        WalkEntry { is_file: false, len: Some(4096) },
        WalkEntry { is_file: true, len: Some(100) },
        WalkEntry { is_file: true, len: None },
        WalkEntry { is_file: true, len: Some(23) },
    ];
    assert_eq!(walk_total_size(&entries), Some(123));
    assert_eq!(
        walk_total_size(&vec![WalkEntry { is_file: true, len: Some(u64::MAX) }, WalkEntry { is_file: true, len: Some(1) }]),
        None
    );
}

#[test]
fn payloads() {
    assert_eq!(payload_display_name(&vec![]), Err(SendmeError::NoFiles));
    let one = vec![FileDataPayload { file_name: "x.png".to_string(), data: vec![1, 2, 3] }];
    assert_eq!(payload_display_name(&one), Ok("x.png".to_string()));
    assert_eq!(payload_total_size(&one), Some(3));
    let two = vec![
        FileDataPayload { file_name: "x.png".to_string(), data: vec![1, 2, 3] },
        FileDataPayload { file_name: "y.png".to_string(), data: vec![0; 10] },
    ];
    assert_eq!(payload_display_name(&two), Ok("2 items".to_string()));
    assert_eq!(payload_total_size(&two), Some(13));
}

#[test]
fn new_file_adds_its_size() {
    let before = vec![
        WalkEntry { is_file: false, len: None },
        WalkEntry { is_file: true, len: Some(100) },
        WalkEntry { is_file: true, len: None },
    ];
    let a = walk_total_size(&before).unwrap();
    for i in 0..=before.len() {
        let mut after = before.clone();
        after.insert(i, WalkEntry { is_file: true, len: Some(42) });
        assert_eq!(walk_total_size(&after), Some(a + 42));
    }
}
