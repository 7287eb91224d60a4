//! The contact surface with `iroh` and `iroh-blobs`: the collection type that
//! a send builds, the ticket that names it, and the hex form of a hash.

use vstd::prelude::*;
use iroh::EndpointAddr;
use iroh_blobs::format::collection::Collection;
use iroh_blobs::ticket::BlobTicket;
use iroh_blobs::BlobFormat;
use crate::sendme::TransferFormat;

verus! {

/// Declaration of `iroh_blobs::format::collection::Collection`, an ordered list
/// of named blobs.
#[verifier::external_type_specification]
#[verifier::external_body]
pub struct ExCollection(Collection);

/// Declaration of `iroh_blobs::Hash`, a BLAKE3 hash. No verified signature
/// holds one (the library hands its 32 bytes around in its place), but the
/// impls of the declared `Collection` mention it, so Verus needs it declared.
#[verifier::external_type_specification]
#[verifier::external_body]
pub struct ExBlobHash(iroh_blobs::Hash);

/// Declaration of `iroh_blobs::ticket::BlobTicket`, kept whole for the
/// provider address it carries.
#[verifier::external_type_specification]
#[verifier::external_body]
pub struct ExBlobTicket(BlobTicket);

/// Declaration of `iroh::EndpointAddr`, the network address of an endpoint.
#[verifier::external_type_specification]
#[verifier::external_body]
pub struct ExEndpointAddr(EndpointAddr);

/// The entries of a collection, in order: each entry's name and the 32 bytes
/// of its BLAKE3 hash.
pub uninterp spec fn collection_entries(c: Collection) -> Seq<(Seq<char>, Seq<u8>)>;

/// What `BlobTicket::from_str` reads from a ticket string: `None` where it
/// refuses the text, otherwise the hash bytes and whether the format is
/// `BlobFormat::HashSeq`.
pub uninterp spec fn ticket_contents(text: Seq<char>) -> Option<(Seq<u8>, bool)>;

/// The names of the entries of a collection, in order.
pub open spec fn collection_names(c: Collection) -> Seq<Seq<char>> {
    collection_entries(c).map_values(|e: (Seq<char>, Seq<u8>)| e.0)
}

/// One lowercase hexadecimal digit.
pub open spec fn hex_digit(n: u8) -> char {
    seq!['0', '1', '2', '3', '4', '5', '6', '7', '8', '9', 'a', 'b', 'c', 'd', 'e', 'f'][n as int]
}

/// Lowercase hexadecimal text of a byte string, two digits per byte, high
/// nibble first.
pub open spec fn hex_lower(bytes: Seq<u8>) -> Seq<char>
    decreases bytes.len(),
{
    if bytes.len() == 0 {
        seq![]
    } else {
        seq![hex_digit(bytes[0] / 16), hex_digit(bytes[0] % 16)] + hex_lower(bytes.drop_first())
    }
}

/// `Collection::default()`: the source derives `Default`, so the list of
/// entries is empty.
#[verifier::external_body]
pub(crate) fn collection_new() -> (c: Collection)
    ensures
        collection_entries(c) == Seq::<(Seq<char>, Seq<u8>)>::empty(),
{
    Collection::default()
}

/// `Collection::push`: the source appends `(name, hash)` to the entry list.
#[verifier::external_body]
pub(crate) fn collection_push(c: &mut Collection, name: String, hash: [u8; 32])
    ensures
        collection_entries(*final(c)) == collection_entries(*old(c)).push((name@, hash@)),
{
    c.push(name, iroh_blobs::Hash::from_bytes(hash))
}

/// `Collection::len`: the source returns the length of the entry list.
#[verifier::external_body]
pub(crate) fn collection_len(c: &Collection) -> (n: usize)
    ensures
        n == collection_entries(*c).len(),
{
    c.len()
}

/// `Collection::index` (the `Index<usize>` impl), name part: the source
/// indexes the entry list, which panics out of bounds.
#[verifier::external_body]
pub(crate) fn collection_name_at(c: &Collection, i: usize) -> (name: &String)
    requires
        i < collection_entries(*c).len(),
    ensures
        name@ == collection_entries(*c)[i as int].0,
{
    &c[i].0
}

/// `Collection::index` (the `Index<usize>` impl), hash part, with
/// `Hash::as_bytes` to hand out the 32 bytes.
#[verifier::external_body]
pub(crate) fn collection_hash_at(c: &Collection, i: usize) -> (hash: [u8; 32])
    requires
        i < collection_entries(*c).len(),
    ensures
        hash@ == collection_entries(*c)[i as int].1,
{
    *c[i].1.as_bytes()
}

/// `BlobTicket::from_str`, then `BlobTicket::hash` and `BlobTicket::format`
/// to hand out plain values beside the ticket itself. The result is named, not
/// described: the parse is base32 and postcard decoding of the text after the
/// `blob` prefix. Nothing is claimed of the returned ticket's provider address.
#[verifier::external_body]
pub(crate) fn parse_blob_ticket(text: &str) -> (r: Option<(BlobTicket, [u8; 32], bool)>)
    ensures
        match r {
            Some((_, hash, hash_seq)) => ticket_contents(text@) == Some((hash@, hash_seq)),
            None => ticket_contents(text@) is None,
        },
{
    match text.parse::<BlobTicket>() {
        Ok(ticket) => {
            let hash = *ticket.hash().as_bytes();
            let hash_seq = ticket.format().is_hash_seq();
            Some((ticket, hash, hash_seq))
        },
        Err(_) => None,
    }
}

/// `BlobTicket::new(addr, hash, format).to_string()`, with `format` carried
/// over to `BlobFormat` variant for variant. Claimed: `BlobTicket::from_str`
/// reads back the same hash and format (the source encodes hash and format
/// with postcard and base32 after the `blob` prefix, and `from_str` decodes
/// exactly that). Left unsaid: the endpoint part of the text, which depends on
/// `addr`, a value opaque here.
#[verifier::external_body]
pub(crate) fn encode_blob_ticket(addr: &EndpointAddr, hash: [u8; 32], format: TransferFormat) -> (text: String)
    ensures
        ticket_contents(text@) == Some((hash@, format == TransferFormat::HashSeq)),
{
    let format = match format {
        TransferFormat::Raw => BlobFormat::Raw,
        TransferFormat::HashSeq => BlobFormat::HashSeq,
    };
    BlobTicket::new(addr.clone(), iroh_blobs::Hash::from_bytes(hash), format).to_string()
}

/// `Hash`'s `Display` (through `to_string`): the source writes `to_hex`,
/// which is BLAKE3's lowercase hex of the 32 bytes, high nibble first.
#[verifier::external_body]
pub(crate) fn hash_to_hex(hash: [u8; 32]) -> (text: String)
    ensures
        text@ == hex_lower(hash@),
{
    iroh_blobs::Hash::from_bytes(hash).to_string()
}

} // verus!
