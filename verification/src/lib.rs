//! Verified core of a peer-to-peer file transfer client built on iroh-blobs.

pub mod blobs;
pub mod paths;
pub mod text;
pub mod error;
pub mod collection;
pub mod sizes;
pub mod progress;
pub mod sendme;
pub mod downloads;
pub mod sendme_multi;
