use iron_sendme::error::SendmeError;
use iron_sendme::sendme::{
    check_path_exists, collection_receive_result, file_info, raw_file_name, raw_receive_result,
    read_ticket, selection_display_name, send_result, ReceivedFile, TransferFormat,
};
use iroh::{EndpointAddr, SecretKey};
use iroh_blobs::ticket::BlobTicket;
use iroh_blobs::BlobFormat;

fn addr() -> EndpointAddr {
    EndpointAddr::new(SecretKey::from_bytes(&[7u8; 32]).public())
}

#[test]
fn check_path_exists_refuses_missing() {
    assert_eq!(check_path_exists("/a", true), Ok(()));
    assert_eq!(
        check_path_exists("/nope", false),
        Err(SendmeError::PathNotFound("/nope".to_string()))
    );
}

#[test]
fn file_info_names_path() {
    let info = file_info("/home/u/doc.pdf", 42);
    assert_eq!(info.name, "doc.pdf");
    assert_eq!(info.size, 42);
}

#[test]
fn sent_ticket_reads_back_as_collection() {
    let hash = [0xabu8; 32];
    let r = send_result(&addr(), hash, "photos".to_string(), 1234);
    assert_eq!(r.file_name, "photos");
    assert_eq!(r.file_size, 1234);
    assert!(r.ticket.starts_with("blob"));
    let info = read_ticket(&r.ticket).unwrap();
    assert_eq!(info.hash, hash);
    assert_eq!(info.format, TransferFormat::HashSeq);
    assert_eq!(info.ticket.addr().id, addr().id);
    let parsed: BlobTicket = r.ticket.parse().unwrap();
    assert_eq!(info.ticket, parsed);
}

#[test]
fn raw_ticket_reads_as_raw() {
    let t = BlobTicket::new(addr(), iroh_blobs::Hash::from_bytes([3u8; 32]), BlobFormat::Raw).to_string();
    let info = read_ticket(&t).unwrap();
    assert_eq!(info.hash, [3u8; 32]);
    assert_eq!(info.format, TransferFormat::Raw);
}

#[test]
fn read_ticket_refuses_garbage() {
    assert!(matches!(read_ticket("not a ticket"), Err(SendmeError::InvalidTicket)));
    assert!(matches!(read_ticket(""), Err(SendmeError::InvalidTicket)));
    assert!(matches!(read_ticket("blobzzzz"), Err(SendmeError::InvalidTicket)));
}

#[test]
fn raw_file_name_uses_hash_prefix() {
    let mut bytes = [0u8; 32];
    bytes[0] = 0xde;
    bytes[1] = 0xad;
    bytes[2] = 0xbe;
    bytes[3] = 0xef;
    bytes[4] = 0x01;
    assert_eq!(raw_file_name(bytes), "received_deadbeef");
    let h = iroh_blobs::Hash::from_bytes(bytes);
    assert_eq!(raw_file_name(bytes), format!("received_{}", &h.to_string()[..8]));
}

#[test]
fn raw_receive_result_reports_file() {
    let r = raw_receive_result("/dl", [0x12u8; 32], 77);
    assert_eq!(r.file_name, "received_12121212");
    assert_eq!(r.file_path, "/dl/received_12121212");
    assert_eq!(r.file_size, 77);
}

#[test]
fn collection_receive_single_file() {
    let files = vec![ReceivedFile { name: "a.txt".to_string(), size: 10 }];
    let r = collection_receive_result("/dl", &files).unwrap();
    assert_eq!(r.file_name, "a.txt");
    assert_eq!(r.file_path, "/dl/a.txt");
    assert_eq!(r.file_size, 10);
}

#[test]
fn collection_receive_many_files() {
    let files = vec![
        ReceivedFile { name: "a".to_string(), size: 10 },
        ReceivedFile { name: "b".to_string(), size: 20 },
        ReceivedFile { name: "c/d".to_string(), size: 30 },
    ];
    let r = collection_receive_result("/dl/", &files).unwrap();
    assert_eq!(r.file_name, "3 files received");
    assert_eq!(r.file_path, "/dl/");
    assert_eq!(r.file_size, 60);
}

#[test]
fn collection_receive_no_files() {
    let r = collection_receive_result("/dl", &vec![]).unwrap();
    assert_eq!(r.file_name, "0 files received");
    assert_eq!(r.file_path, "/dl");
    assert_eq!(r.file_size, 0);
}

#[test]
fn collection_receive_overflowing_size() {
    let files = vec![
        ReceivedFile { name: "a".to_string(), size: u64::MAX },
        ReceivedFile { name: "b".to_string(), size: 1 },
    ];
    assert_eq!(collection_receive_result("/dl", &files), None);
}

#[test]
fn selection_display_names() {
    assert_eq!(selection_display_name(&vec![]), Err(SendmeError::NoPaths));
    assert_eq!(selection_display_name(&vec!["/x/y.txt".to_string()]), Ok("y.txt".to_string()));
    assert_eq!(
        selection_display_name(&vec!["/x/a".to_string(), "/x/b".to_string()]),
        Ok("2 items".to_string())
    );
}
