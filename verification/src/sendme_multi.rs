//! Sending several files handed over as bytes (as content URIs give them):
//! the items of data, their total size, and the name shown for them.

use vstd::prelude::*;
use vstd::string::*;
use crate::error::SendmeError;
use crate::sizes::{seq_sum, sum_sizes};
use crate::text::{decimal, decimal_string, digits_value, law_decimal_spells_number};

verus! {

/// One file handed over with its contents.
#[derive(Clone, Debug, PartialEq, Eq)]
pub struct FileDataPayload {
    pub file_name: String,
    pub data: Vec<u8>,
}

/// The lengths of the files' contents, in order.
pub open spec fn payload_lens(files: Seq<FileDataPayload>) -> Seq<u64> {
    files.map_values(|f: FileDataPayload| f.data@.len() as u64)
}

/// The total size of the files' contents; `None` where it exceeds
/// `u64::MAX`.
pub fn payload_total_size(files: &Vec<FileDataPayload>) -> (total: Option<u64>)
    ensures
        match total {
            Some(t) => t == seq_sum(payload_lens(files@)),
            None => seq_sum(payload_lens(files@)) > u64::MAX,
        },
        files.len() == 1 ==> total == Some(files[0].data@.len() as u64),
{
    let mut lens: Vec<u64> = Vec::new();
    let n = files.len();
    let mut i: usize = 0;
    while i < n
        invariant
            i <= n,
            n == files@.len(),
            lens@ == payload_lens(files@.take(i as int)),
        decreases n - i,
    {
        lens.push(files[i].data.len() as u64);
        assert(files@.take(i + 1) =~= files@.take(i as int).push(files@[i as int]));
        assert(lens@ =~= payload_lens(files@.take(i + 1)));
        i = i + 1;
    }
    assert(files@.take(n as int) =~= files@);
    proof {
        if n == 1 {
            law_payload_total_append(Seq::<FileDataPayload>::empty(), files@[0]);
            assert(Seq::<FileDataPayload>::empty().push(files@[0]) =~= files@);
            assert(payload_lens(Seq::<FileDataPayload>::empty()) =~= Seq::<u64>::empty());
        }
    }
    sum_sizes(&lens)
}

/// Every handed-over file counts with the length of its data, whatever its
/// name, and one more file raises the total by exactly its length.
pub proof fn law_payload_total_append(files: Seq<FileDataPayload>, f: FileDataPayload)
    ensures
        payload_lens(files).len() == files.len(),
        forall|i: int| 0 <= i < files.len() ==> #[trigger] payload_lens(files)[i] == files[i].data@.len() as u64,
        seq_sum(payload_lens(files.push(f))) == seq_sum(payload_lens(files)) + (f.data@.len() as u64),
{
    assert(payload_lens(files.push(f)) =~= payload_lens(files).push(f.data@.len() as u64));
    assert(payload_lens(files).push(f.data@.len() as u64).drop_last() =~= payload_lens(files));
}

/// The name shown for a send of `count` files whose first is named `first`:
/// that name alone, or the count followed by ` items`.
pub open spec fn payload_name(count: nat, first: Seq<char>) -> Seq<char> {
    if count == 1 {
        first
    } else {
        decimal(count) + " items"@
    }
}

/// The name shown for a send of files handed over as bytes; refused where
/// there are none.
pub fn payload_display_name(files: &Vec<FileDataPayload>) -> (r: Result<String, SendmeError>)
    ensures
        files.len() == 0 ==> r == Err::<String, SendmeError>(SendmeError::NoFiles),
        files.len() > 0 ==> (r matches Ok(name) && name@ == payload_name(files.len() as nat, files[0].file_name@)),
        files.len() == 1 ==> (r matches Ok(name) && name@ == files[0].file_name@),
        files.len() > 1 ==> (r matches Ok(name) && digits_value(name@.take(name@.len() - 6)) == files.len()),
{
    if files.len() == 0 {
        return Err(SendmeError::NoFiles);
    }
    if files.len() == 1 {
        Ok(files[0].file_name.clone())
    } else {
        let name = decimal_string(files.len() as u64).concat(" items");
        proof {
            reveal_strlit(" items");
            law_decimal_spells_number(files.len() as nat);
            let d = decimal(files.len() as nat);
            assert((d + " items"@).take(d.len() as int) =~= d);
        }
        Ok(name)
    }
}

} // verus!
