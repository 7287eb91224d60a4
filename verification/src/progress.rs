//! The progress reports of a send and of a receive: for each stage, the text
//! shown, the bytes counted as transferred, the total, and the percentage.

use vstd::prelude::*;
use vstd::string::*;

verus! {

/// The stages of a send, in the order in which they are reached.
#[derive(Clone, Copy, Debug, PartialEq, Eq)]
pub enum SendStage {
    Initializing,
    SettingUpConnection,
    ImportingFiles,
    StoringCollection,
    StartingServer,
    GeneratingTicket,
    ReadyToSend,
}

/// The stages of a receive, in the order in which they are reached.
#[derive(Clone, Copy, Debug, PartialEq, Eq)]
pub enum ReceiveStage {
    ConnectingToSender,
    EstablishingConnection,
    ConnectingToPeer,
    Downloading,
    Complete,
}

/// One progress report.
#[derive(Clone, Debug, PartialEq, Eq)]
pub struct ProgressEvent {
    pub status: String,
    pub bytes_transferred: u64,
    pub total_bytes: u64,
    /// Whole percent, 0 to 100.
    pub percent: u8,
}

/// The position of a send stage in the order of a send.
pub open spec fn send_stage_rank(s: SendStage) -> nat {
    match s {
        SendStage::Initializing => 0,
        SendStage::SettingUpConnection => 1,
        SendStage::ImportingFiles => 2,
        SendStage::StoringCollection => 3,
        SendStage::StartingServer => 4,
        SendStage::GeneratingTicket => 5,
        SendStage::ReadyToSend => 6,
    }
}

/// The text shown at a send stage.
pub open spec fn send_status(s: SendStage) -> Seq<char> {
    match s {
        SendStage::Initializing => "Initializing..."@,
        SendStage::SettingUpConnection => "Setting up connection..."@,
        SendStage::ImportingFiles => "Importing files..."@,
        SendStage::StoringCollection => "Storing collection..."@,
        SendStage::StartingServer => "Starting server..."@,
        SendStage::GeneratingTicket => "Generating ticket..."@,
        SendStage::ReadyToSend => "Ready to send"@,
    }
}

/// The percentage reported at a send stage.
pub open spec fn send_percent(s: SendStage) -> u8 {
    match s {
        SendStage::Initializing => 0,
        SendStage::SettingUpConnection => 10,
        SendStage::ImportingFiles => 20,
        SendStage::StoringCollection => 40,
        SendStage::StartingServer => 60,
        SendStage::GeneratingTicket => 80,
        SendStage::ReadyToSend => 100,
    }
}

/// Whether the content counts as transferred at a send stage: once the
/// server starts, the whole content is offered.
pub open spec fn send_counts_all(s: SendStage) -> bool {
    send_stage_rank(s) >= send_stage_rank(SendStage::StartingServer)
}

/// The position of a receive stage in the order of a receive.
pub open spec fn receive_stage_rank(s: ReceiveStage) -> nat {
    match s {
        ReceiveStage::ConnectingToSender => 0,
        ReceiveStage::EstablishingConnection => 1,
        ReceiveStage::ConnectingToPeer => 2,
        ReceiveStage::Downloading => 3,
        ReceiveStage::Complete => 4,
    }
}

/// The text shown at a receive stage.
pub open spec fn receive_status(s: ReceiveStage) -> Seq<char> {
    match s {
        ReceiveStage::ConnectingToSender => "Connecting to sender..."@,
        ReceiveStage::EstablishingConnection => "Establishing connection..."@,
        ReceiveStage::ConnectingToPeer => "Connecting to peer..."@,
        ReceiveStage::Downloading => "Downloading..."@,
        ReceiveStage::Complete => "Complete"@,
    }
}

/// The percentage reported at a receive stage.
pub open spec fn receive_percent(s: ReceiveStage) -> u8 {
    match s {
        ReceiveStage::ConnectingToSender => 0,
        ReceiveStage::EstablishingConnection => 10,
        ReceiveStage::ConnectingToPeer => 20,
        ReceiveStage::Downloading => 30,
        ReceiveStage::Complete => 100,
    }
}

/// The report of a send of `total` bytes at `stage`: nothing counted as
/// transferred before the server starts, everything from then on.
pub fn send_progress(stage: SendStage, total: u64) -> (ev: ProgressEvent)
    ensures
        ev.status@ == send_status(stage),
        ev.percent == send_percent(stage),
        ev.total_bytes == total,
        ev.bytes_transferred == if send_counts_all(stage) { total } else { 0 },
{
    let (status, percent, counts_all) = match stage {
        SendStage::Initializing => ("Initializing...", 0u8, false),
        SendStage::SettingUpConnection => ("Setting up connection...", 10u8, false),
        SendStage::ImportingFiles => ("Importing files...", 20u8, false),
        SendStage::StoringCollection => ("Storing collection...", 40u8, false),
        SendStage::StartingServer => ("Starting server...", 60u8, true),
        SendStage::GeneratingTicket => ("Generating ticket...", 80u8, true),
        SendStage::ReadyToSend => ("Ready to send", 100u8, true),
    };
    ProgressEvent {
        status: String::from_str(status),
        bytes_transferred: if counts_all { total } else { 0 },
        total_bytes: total,
        percent,
    }
}

/// The report of a receive at `stage`: sizes are known only once complete,
/// when the `total` received bytes count as both transferred and total.
pub fn receive_progress(stage: ReceiveStage, total: u64) -> (ev: ProgressEvent)
    ensures
        ev.status@ == receive_status(stage),
        ev.percent == receive_percent(stage),
        stage == ReceiveStage::Complete ==> ev.bytes_transferred == total && ev.total_bytes == total,
        stage != ReceiveStage::Complete ==> ev.bytes_transferred == 0 && ev.total_bytes == 0,
{
    let (status, percent, complete) = match stage {
        ReceiveStage::ConnectingToSender => ("Connecting to sender...", 0u8, false),
        ReceiveStage::EstablishingConnection => ("Establishing connection...", 10u8, false),
        ReceiveStage::ConnectingToPeer => ("Connecting to peer...", 20u8, false),
        ReceiveStage::Downloading => ("Downloading...", 30u8, false),
        ReceiveStage::Complete => ("Complete", 100u8, true),
    };
    let size = if complete { total } else { 0 };
    ProgressEvent { status: String::from_str(status), bytes_transferred: size, total_bytes: size, percent }
}

/// Progress of a send never goes back: a later stage reports a greater
/// percentage, never more transferred bytes than the total, and the last
/// stage reports everything at one hundred percent.
pub proof fn law_send_progress_monotone(a: SendStage, b: SendStage, total: u64)
    requires
        send_stage_rank(a) < send_stage_rank(b),
    ensures
        send_percent(a) < send_percent(b),
        send_percent(b) <= 100,
        (if send_counts_all(a) { total } else { 0u64 }) <= (if send_counts_all(b) { total } else { 0u64 }),
        (if send_counts_all(b) { total } else { 0u64 }) <= total,
        send_percent(SendStage::ReadyToSend) == 100 && send_counts_all(SendStage::ReadyToSend),
{
}

/// Progress of a receive never goes back: a later stage reports a greater
/// percentage, and only the last one, at one hundred percent, counts bytes.
pub proof fn law_receive_progress_monotone(a: ReceiveStage, b: ReceiveStage)
    requires
        receive_stage_rank(a) < receive_stage_rank(b),
    ensures
        receive_percent(a) < receive_percent(b),
        receive_percent(b) <= 100,
        receive_percent(ReceiveStage::Complete) == 100,
{
}

} // verus!
