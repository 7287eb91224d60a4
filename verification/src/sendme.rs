//! The decisions of sending and receiving: which paths are refused, what a
//! send reports, what a ticket is read as, and what a receive reports.

use vstd::prelude::*;
use vstd::string::*;
use iroh::EndpointAddr;
use iroh_blobs::ticket::BlobTicket;
use crate::blobs::{ticket_contents, hex_lower, hex_digit, encode_blob_ticket, parse_blob_ticket, hash_to_hex};
use crate::error::SendmeError;
use crate::collection::{ExportItem, plans_export};
use crate::paths::{get_name, join_path, display_name_of, path_join, is_plain_name, law_name_of_joined, law_display_name_is_plain};
use crate::sizes::{seq_sum, sum_sizes};
use crate::text::{decimal, decimal_string, digits_value, is_digit, law_decimal_spells_number};

verus! {

/// What a send hands back: the ticket to give the receiver, the name shown
/// for what is sent, and its size in bytes.
#[derive(Clone, Debug, PartialEq, Eq)]
pub struct SendResult {
    pub ticket: String,
    pub file_name: String,
    pub file_size: u64,
}

/// What a receive hands back: where the received content now is, the name
/// shown for it, and its size in bytes.
#[derive(Clone, Debug, PartialEq, Eq)]
pub struct ReceiveResult {
    pub file_path: String,
    pub file_name: String,
    pub file_size: u64,
}

/// The name and size of a file or directory.
#[derive(Clone, Debug, PartialEq, Eq)]
pub struct FileInfo {
    pub name: String,
    pub size: u64,
}

/// Refuses a path that does not exist.
pub fn check_path_exists(path: &str, exists: bool) -> (r: Result<(), SendmeError>)
    ensures
        exists ==> r is Ok,
        !exists ==> (r matches Err(SendmeError::PathNotFound(p)) && p@ == path@),
{
    if exists {
        Ok(())
    } else {
        Err(SendmeError::PathNotFound(String::from_str(path)))
    }
}

/// The name and size of the file or directory at `path`, whose size is
/// `size`.
pub fn file_info(path: &str, size: u64) -> (info: FileInfo)
    ensures
        info.name@ == display_name_of(path@),
        info.size == size,
{
    FileInfo { name: get_name(path), size }
}

/// What a send of the collection with hash `collection_hash`, offered at
/// `addr`, reports: a ticket that reads back as that collection, with the
/// given name and size.
pub fn send_result(addr: &EndpointAddr, collection_hash: [u8; 32], file_name: String, file_size: u64) -> (r: SendResult)
    ensures
        ticket_contents(r.ticket@) == Some((collection_hash@, true)),
        r.file_name == file_name,
        r.file_size == file_size,
{
    SendResult { ticket: encode_blob_ticket(addr, collection_hash, TransferFormat::HashSeq), file_name, file_size }
}

/// The name shown for a selection of `count` items whose first is named
/// `first`: that name alone, or the count followed by ` items`.
pub open spec fn selection_name(count: nat, first: Seq<char>) -> Seq<char> {
    if count == 1 {
        display_name_of(first)
    } else {
        decimal(count) + " items"@
    }
}

/// The name shown for a selection of paths; refused where it is empty.
pub fn selection_display_name(paths: &Vec<String>) -> (r: Result<String, SendmeError>)
    ensures
        paths.len() == 0 ==> r == Err::<String, SendmeError>(SendmeError::NoPaths),
        paths.len() > 0 ==> (r matches Ok(name) && name@ == selection_name(paths.len() as nat, paths[0]@)),
        paths.len() == 1 ==> (r matches Ok(name) && name@ == display_name_of(paths[0]@)),
        paths.len() > 1 ==> (r matches Ok(name) && digits_value(name@.take(name@.len() - 6)) == paths.len()),
        r matches Ok(name) ==> name@.len() > 0 && !name@.contains('/'),
{
    if paths.len() == 0 {
        return Err(SendmeError::NoPaths);
    }
    if paths.len() == 1 {
        let name = get_name(paths[0].as_str());
        proof {
            law_display_name_is_plain(paths[0]@);
        }
        Ok(name)
    } else {
        let name = decimal_string(paths.len() as u64).concat(" items");
        proof {
            reveal_strlit(" items");
            law_counted_name(paths.len() as nat, " items"@);
        }
        Ok(name)
    }
}

/// A name made of a count and a fixed word (`N items`, `N files received`)
/// is not empty, has no `/`, and its leading digits spell the count back.
proof fn law_counted_name(count: nat, word: Seq<char>)
    requires
        word == " items"@ || word == " files received"@,
    ensures
        (decimal(count) + word).len() > 0,
        !(decimal(count) + word).contains('/'),
        (decimal(count) + word).take(decimal(count).len() as int) == decimal(count),
        digits_value((decimal(count) + word).take((decimal(count) + word).len() - word.len())) == count,
{
    reveal_strlit(" items");
    reveal_strlit(" files received");
    law_decimal_spells_number(count);
    let d = decimal(count);
    let t = d + word;
    assert(t.take(d.len() as int) =~= d);
    assert(!t.contains('/')) by {
        if t.contains('/') {
            let i = choose|i: int| 0 <= i < t.len() && t[i] == '/';
            if i < d.len() {
                assert(t[i] == d[i]);
                assert(is_digit(d[i]));
            } else {
                assert(t[i] == word[i - d.len()]);
                assert(word.contains('/'));
                if word == " items"@ {
                    assert(word[i - d.len()] != '/');
                } else {
                    assert(word[i - d.len()] != '/');
                }
            }
        }
    }
}

/// The name shown for a selection of one path is the name of that path,
/// which is one plain component; for several, the count in decimal.
pub proof fn law_selection_name(count: nat, first: Seq<char>)
    ensures
        count == 1 ==> selection_name(count, first) == display_name_of(first) && is_plain_name(selection_name(count, first)),
        count != 1 ==> digits_value(selection_name(count, first).take(selection_name(count, first).len() - 6)) == count,
        selection_name(count, first).len() > 0,
{
    reveal_strlit(" items");
    law_display_name_is_plain(first);
    law_counted_name(count, " items"@);
}

/// The two forms of content a ticket can name.
#[derive(Clone, Copy, Debug, PartialEq, Eq)]
pub enum TransferFormat {
    /// A single blob.
    Raw,
    /// A collection: a sequence of hashes, fetched with all its blobs.
    HashSeq,
}

/// What a ticket names: the hash of the content and its form, with the
/// parsed ticket itself, which carries the provider's address.
#[derive(Debug)]
pub struct TicketInfo {
    pub ticket: BlobTicket,
    pub hash: [u8; 32],
    pub format: TransferFormat,
}

/// What the ticket text is read as: `None` where it is refused.
pub open spec fn ticket_reading(text: Seq<char>) -> Option<(Seq<u8>, TransferFormat)> {
    match ticket_contents(text) {
        Some((hash, hash_seq)) => Some((hash, if hash_seq { TransferFormat::HashSeq } else { TransferFormat::Raw })),
        None => None,
    }
}

/// Reads a ticket: the hash and form of the content it names, or
/// `InvalidTicket` where the text is no blob ticket.
pub fn read_ticket(text: &str) -> (r: Result<TicketInfo, SendmeError>)
    ensures
        match ticket_reading(text@) {
            Some((hash, format)) => r matches Ok(info) && info.hash@ == hash && info.format == format,
            None => r == Err::<TicketInfo, SendmeError>(SendmeError::InvalidTicket),
        },
{
    match parse_blob_ticket(text) {
        Some((ticket, hash, hash_seq)) => {
            let format = if hash_seq { TransferFormat::HashSeq } else { TransferFormat::Raw };
            Ok(TicketInfo { ticket, hash, format })
        },
        None => Err(SendmeError::InvalidTicket),
    }
}

/// A ticket that a send hands back reads, on the receiving side, as the
/// collection that was sent: its hash, in the form fetched with all its
/// blobs.
pub proof fn law_sent_ticket_reads_back(text: Seq<char>, collection_hash: Seq<u8>)
    requires
        ticket_contents(text) == Some((collection_hash, true)),
    ensures
        ticket_reading(text) == Some((collection_hash, TransferFormat::HashSeq)),
{
}

proof fn lemma_hex_len(bytes: Seq<u8>)
    ensures
        hex_lower(bytes).len() == 2 * bytes.len(),
    decreases bytes.len(),
{
    if bytes.len() > 0 {
        lemma_hex_len(bytes.drop_first());
    }
}

/// The name a single received blob is saved under: `received_` and the first
/// eight hex digits of its hash.
pub open spec fn raw_name(hash: Seq<u8>) -> Seq<char> {
    "received_"@ + hex_lower(hash).take(8)
}

/// The name a single received blob is saved under.
pub fn raw_file_name(hash: [u8; 32]) -> (name: String)
    ensures
        name@ == raw_name(hash@),
{
    let hex = hash_to_hex(hash);
    proof {
        lemma_hex_len(hash@);
    }
    let short = hex.as_str().substring_char(0, 8);
    String::from_str("received_").concat(short)
}

proof fn lemma_hex_no_separator(bytes: Seq<u8>)
    ensures
        !hex_lower(bytes).contains('/'),
    decreases bytes.len(),
{
    if bytes.len() > 0 {
        lemma_hex_no_separator(bytes.drop_first());
        let hi = hex_digit(bytes[0] / 16);
        let lo = hex_digit(bytes[0] % 16);
        assert(hi != '/');
        assert(lo != '/');
        let h = hex_lower(bytes);
        assert(h =~= seq![hi, lo] + hex_lower(bytes.drop_first()));
        if h.contains('/') {
            let i = choose|i: int| 0 <= i < h.len() && h[i] == '/';
            if i >= 2 {
                assert(hex_lower(bytes.drop_first())[i - 2] == '/');
            }
        }
    }
}

proof fn lemma_hex_prefix(bytes: Seq<u8>, k: int)
    requires
        0 <= k <= bytes.len(),
    ensures
        hex_lower(bytes).take(2 * k) == hex_lower(bytes.take(k)),
    decreases k,
{
    lemma_hex_len(bytes);
    if k == 0 {
        assert(bytes.take(0) =~= Seq::<u8>::empty());
        assert(hex_lower(bytes).take(0) =~= Seq::<char>::empty());
    } else {
        lemma_hex_prefix(bytes.drop_first(), k - 1);
        let head = seq![hex_digit(bytes[0] / 16), hex_digit(bytes[0] % 16)];
        assert(hex_lower(bytes) == head + hex_lower(bytes.drop_first()));
        assert(bytes.take(k).drop_first() =~= bytes.drop_first().take(k - 1));
        assert(hex_lower(bytes.take(k)) == head + hex_lower(bytes.take(k).drop_first()));
        assert(hex_lower(bytes).take(2 * k) =~= head + hex_lower(bytes.drop_first()).take(2 * (k - 1)));
    }
}

/// A single received blob is saved under `received_` and the hex of the
/// first four bytes of its hash, a plain name, so the name of the reported
/// path is the reported name.
pub proof fn law_raw_receive_names_file(output_dir: Seq<char>, hash: Seq<u8>)
    requires
        hash.len() == 32,
    ensures
        raw_name(hash) == "received_"@ + hex_lower(hash.take(4)),
        raw_name(hash).len() == 17,
        is_plain_name(raw_name(hash)),
        display_name_of(path_join(output_dir, raw_name(hash))) == raw_name(hash),
{
    reveal_strlit("received_");
    lemma_hex_len(hash);
    lemma_hex_prefix(hash, 4);
    lemma_hex_no_separator(hash);
    let name = raw_name(hash);
    let hex8 = hex_lower(hash).take(8);
    assert(name.len() == 17);
    assert(!name.contains('/')) by {
        if name.contains('/') {
            let i = choose|i: int| 0 <= i < name.len() && name[i] == '/';
            if i >= 9 {
                assert(hex_lower(hash)[i - 9] == '/');
                assert(hex_lower(hash).contains('/'));
            }
        }
    }
    assert(name != seq!['.']) by {
        assert(seq!['.'].len() == 1);
    }
    assert(name != seq!['.', '.']) by {
        assert(seq!['.', '.'].len() == 2);
    }
    law_name_of_joined(output_dir, name);
}

/// What a receive of a single blob with hash `hash` reports: the blob saved
/// under its `received_` name in `output_dir`, of `file_size` bytes.
pub fn raw_receive_result(output_dir: &str, hash: [u8; 32], file_size: u64) -> (r: ReceiveResult)
    ensures
        r.file_name@ == raw_name(hash@),
        r.file_path@ == path_join(output_dir@, raw_name(hash@)),
        r.file_size == file_size,
{
    let file_name = raw_file_name(hash);
    let file_path = join_path(output_dir, file_name.as_str());
    ReceiveResult { file_path, file_name, file_size }
}

/// One file written out of a received collection: its name in the
/// collection and its size on disk.
#[derive(Clone, Debug, PartialEq, Eq)]
pub struct ReceivedFile {
    pub name: String,
    pub size: u64,
}

/// The sizes of the received files, in order.
pub open spec fn received_sizes(files: Seq<ReceivedFile>) -> Seq<u64> {
    files.map_values(|f: ReceivedFile| f.size)
}

/// The name shown for a received collection of `count` files whose first is
/// named `first`: that name alone, or the count followed by ` files received`.
pub open spec fn received_name(count: nat, first: Seq<char>) -> Seq<char> {
    if count == 1 {
        first
    } else {
        decimal(count) + " files received"@
    }
}

/// Where a received collection of `count` files whose first is named `first`
/// is reported to be: that file in `output_dir`, or `output_dir` itself.
pub open spec fn received_path(output_dir: Seq<char>, count: nat, first: Seq<char>) -> Seq<char> {
    if count == 1 {
        path_join(output_dir, first)
    } else {
        output_dir
    }
}

/// What a receive of a collection reports once its files are written to
/// `output_dir`: the single file, or the directory and the count; the size is
/// the sum of the file sizes, `None` where that exceeds `u64::MAX`.
pub fn collection_receive_result(output_dir: &str, files: &Vec<ReceivedFile>) -> (r: Option<ReceiveResult>)
    ensures
        seq_sum(received_sizes(files@)) > u64::MAX ==> r is None,
        seq_sum(received_sizes(files@)) <= u64::MAX ==> (r matches Some(res) && {
            let first = if files.len() > 0 { files[0].name@ } else { Seq::<char>::empty() };
            &&& res.file_size == seq_sum(received_sizes(files@))
            &&& res.file_name@ == received_name(files.len() as nat, first)
            &&& res.file_path@ == received_path(output_dir@, files.len() as nat, first)
        }),
        files.len() == 1 ==> (r matches Some(res) && {
            &&& res.file_name@ == files[0].name@
            &&& res.file_path@ == path_join(output_dir@, files[0].name@)
            &&& res.file_size == files[0].size
        }),
        files.len() != 1 ==> (r matches Some(res) ==> {
            &&& res.file_path@ == output_dir@
            &&& digits_value(res.file_name@.take(res.file_name@.len() - 15)) == files.len()
        }),
{
    let mut sizes: Vec<u64> = Vec::new();
    let n = files.len();
    let mut i: usize = 0;
    while i < n
        invariant
            i <= n,
            n == files@.len(),
            sizes@ == received_sizes(files@.take(i as int)),
        decreases n - i,
    {
        sizes.push(files[i].size);
        assert(files@.take(i + 1) =~= files@.take(i as int).push(files@[i as int]));
        assert(sizes@ =~= received_sizes(files@.take(i + 1)));
        i = i + 1;
    }
    assert(files@.take(n as int) =~= files@);
    proof {
        if n == 1 {
            law_received_sizes_append(Seq::<ReceivedFile>::empty(), files@[0]);
            assert(Seq::<ReceivedFile>::empty().push(files@[0]) =~= files@);
            assert(received_sizes(Seq::<ReceivedFile>::empty()) =~= Seq::<u64>::empty());
        }
    }
    let total = match sum_sizes(&sizes) {
        Some(t) => t,
        None => {
            return None;
        },
    };
    if n == 1 {
        let file_name = files[0].name.clone();
        let file_path = join_path(output_dir, file_name.as_str());
        Some(ReceiveResult { file_path, file_name, file_size: total })
    } else {
        let file_name = decimal_string(n as u64).concat(" files received");
        proof {
            reveal_strlit(" files received");
            law_counted_name(n as nat, " files received"@);
        }
        Some(ReceiveResult { file_path: String::from_str(output_dir), file_name, file_size: total })
    }
}

/// One more received file raises the reported total by exactly its size,
/// whatever its name; each file counts once, in order.
pub proof fn law_received_sizes_append(files: Seq<ReceivedFile>, f: ReceivedFile)
    ensures
        received_sizes(files).len() == files.len(),
        forall|i: int| 0 <= i < files.len() ==> #[trigger] received_sizes(files)[i] == files[i].size,
        seq_sum(received_sizes(files.push(f))) == seq_sum(received_sizes(files)) + f.size,
{
    assert(received_sizes(files.push(f)) =~= received_sizes(files).push(f.size));
    assert(received_sizes(files).push(f.size).drop_last() =~= received_sizes(files));
}

/// A collection of one entry is reported at the very path its export plan
/// writes that entry to, under the entry's name.
pub proof fn law_single_receive_at_export_target(
    output_dir: Seq<char>,
    entries: Seq<(Seq<char>, Seq<u8>)>,
    plan: Seq<ExportItem>,
    files: Seq<ReceivedFile>,
)
    requires
        plans_export(output_dir, entries, plan),
        entries.len() == 1,
        files.len() == 1,
        files[0].name@ == plan[0].name@,
    ensures
        received_path(output_dir, 1, files[0].name@) == plan[0].target@,
        received_name(1, files[0].name@) == plan[0].name@,
{
}

/// A single file sent under its name is reported, once received into
/// `output_dir`, under that same name, at a path whose name is that name
/// again: what `get_name` gave the sender, the receiver gets back.
pub proof fn law_sent_name_survives_receive(sent_path: Seq<char>, output_dir: Seq<char>)
    ensures
        received_name(1, display_name_of(sent_path)) == display_name_of(sent_path),
        display_name_of(received_path(output_dir, 1, display_name_of(sent_path))) == display_name_of(sent_path),
{
    law_display_name_is_plain(sent_path);
    law_name_of_joined(output_dir, display_name_of(sent_path));
}

} // verus!
