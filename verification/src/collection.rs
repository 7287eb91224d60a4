//! Building the collection that a send offers, with no two entries under one
//! name, and reading back the entries of a received collection.

use vstd::prelude::*;
use vstd::hash_set::StringHashSet;
use iroh_blobs::format::collection::Collection;
use crate::blobs::{collection_entries, collection_names, collection_new, collection_push, collection_len, collection_name_at, collection_hash_at};
use crate::error::SendmeError;
use crate::paths::{path_join, join_path, relative_name};

verus! {

/// Which check found a name twice: a directory walk, or a selection of files.
#[derive(Clone, Copy, Debug, PartialEq, Eq)]
pub enum DuplicateKind {
    /// Two files of one walk got the same collection name.
    Entry,
    /// Two selected files have the same name.
    FileName,
}

/// The error for a name found twice.
pub open spec fn duplicate_error(kind: DuplicateKind, name: String) -> SendmeError {
    match kind {
        DuplicateKind::Entry => SendmeError::DuplicateEntry(name),
        DuplicateKind::FileName => SendmeError::DuplicateFileName(name),
    }
}

/// A collection under construction. Each file is added in two steps, as the
/// import of its contents lies between them: its name is reserved (and
/// refused if the collection, or the reservation in progress, already has
/// it), then its hash completes the entry. No name ever occurs twice. The
/// names taken are kept in a hash set, so that each check is a lookup.
pub struct CollectionBuilder {
    collection: Collection,
    taken: StringHashSet,
    pending: Option<String>,
}

/// Whether `name` is taken in a builder with these names and this
/// reservation.
pub open spec fn name_taken(names: Seq<Seq<char>>, pending: Option<Seq<char>>, name: Seq<char>) -> bool {
    names.contains(name) || pending == Some(name)
}

impl CollectionBuilder {
    /// The completed entries, in order: name and hash bytes.
    pub closed spec fn entries(&self) -> Seq<(Seq<char>, Seq<u8>)> {
        collection_entries(self.collection)
    }

    /// The names of the completed entries, in order.
    pub open spec fn names(&self) -> Seq<Seq<char>> {
        self.entries().map_values(|e: (Seq<char>, Seq<u8>)| e.0)
    }

    /// The name reserved and not yet completed, if any.
    pub closed spec fn pending(&self) -> Option<Seq<char>> {
        match self.pending {
            Some(n) => Some(n@),
            None => None,
        }
    }

    #[verifier::type_invariant]
    closed spec fn names_unique(&self) -> bool {
        &&& collection_names(self.collection).no_duplicates()
        &&& (self.pending matches Some(n) ==> !collection_names(self.collection).contains(n@))
        &&& forall|n: Seq<char>| #![trigger self.taken@.contains(n)]
            self.taken@.contains(n) <==> name_taken(collection_names(self.collection), self.pending(), n)
    }

    /// An empty collection with nothing reserved.
    pub fn new() -> (b: Self)
        ensures
            b.entries() == Seq::<(Seq<char>, Seq<u8>)>::empty(),
            b.pending() is None,
    {
        let b = CollectionBuilder { collection: collection_new(), taken: StringHashSet::new(), pending: None };
        assert(collection_names(b.collection) =~= Seq::<Seq<char>>::empty());
        b
    }

    /// Reserves `name` for the next entry. Refused, with the error of `kind`
    /// for this name, where a completed entry or the reservation in progress
    /// already has it; the builder is then unchanged. A reservation not
    /// completed is given up for the new one.
    pub fn reserve(&mut self, name: &String, kind: DuplicateKind) -> (r: Result<(), SendmeError>)
        ensures
            final(self).entries() == old(self).entries(),
            name_taken(old(self).names(), old(self).pending(), name@) ==> {
                &&& r == Err::<(), SendmeError>(duplicate_error(kind, *name))
                &&& final(self).pending() == old(self).pending()
            },
            !name_taken(old(self).names(), old(self).pending(), name@) ==> {
                &&& r is Ok
                &&& final(self).pending() == Some(name@)
            },
    {
        proof {
            use_type_invariant(&*self);
        }
        if self.taken.contains(name.as_str()) {
            let e = match kind {
                DuplicateKind::Entry => SendmeError::DuplicateEntry(name.clone()),
                DuplicateKind::FileName => SendmeError::DuplicateFileName(name.clone()),
            };
            return Err(e);
        }
        let mut current = CollectionBuilder::new();
        std::mem::swap(&mut current, self);
        proof {
            use_type_invariant(&current);
        }
        let CollectionBuilder { collection, mut taken, pending } = current;
        match pending {
            Some(given_up) => {
                taken.remove(given_up.as_str());
            },
            None => {},
        }
        taken.insert(name.clone());
        *self = CollectionBuilder { collection, taken, pending: Some(name.clone()) };
        Ok(())
    }

    /// Completes the reserved entry with the hash of its contents. Returns
    /// `false`, and changes nothing, where no name is reserved.
    pub fn complete(&mut self, hash: [u8; 32]) -> (added: bool)
        ensures
            match old(self).pending() {
                Some(n) => {
                    &&& added
                    &&& final(self).entries() == old(self).entries().push((n, hash@))
                    &&& final(self).pending() is None
                },
                None => {
                    &&& !added
                    &&& final(self).entries() == old(self).entries()
                    &&& final(self).pending() is None
                },
            },
    {
        let mut current = CollectionBuilder::new();
        std::mem::swap(&mut current, self);
        proof {
            use_type_invariant(&current);
        }
        let CollectionBuilder { mut collection, taken, pending } = current;
        match pending {
            Some(name) => {
                let ghost before = collection_names(collection);
                let ghost n = name@;
                collection_push(&mut collection, name, hash);
                proof {
                    assert(collection_names(collection) =~= before.push(n));
                    assert forall|i: int, j: int|
                        0 <= i < j < before.push(n).len() implies before.push(n)[i] != before.push(n)[j] by {
                        if j == before.len() {
                            assert(before.contains(before[i]));
                        }
                    }
                    assert forall|m: Seq<char>| before.push(n).contains(m) <==> name_taken(before, Some(n), m) by {
                        if before.push(n).contains(m) {
                            let k = choose|k: int| 0 <= k < before.push(n).len() && before.push(n)[k] == m;
                            if k < before.len() {
                                assert(before[k] == m);
                            }
                        }
                        if before.contains(m) {
                            let k = choose|k: int| 0 <= k < before.len() && before[k] == m;
                            assert(before.push(n)[k] == m);
                        }
                        if m == n {
                            assert(before.push(n)[before.len() as int] == m);
                        }
                    }
                }
                *self = CollectionBuilder { collection, taken, pending: None };
                true
            },
            None => {
                *self = CollectionBuilder { collection, taken, pending: None };
                false
            },
        }
    }

    /// The finished collection: the completed entries, in order, their
    /// names all distinct. A reservation not completed is dropped.
    pub fn finish(self) -> (c: Collection)
        ensures
            collection_entries(c) == self.entries(),
            collection_names(c).no_duplicates(),
    {
        proof {
            use_type_invariant(&self);
        }
        let CollectionBuilder { collection, .. } = self;
        collection
    }
}

/// A collection with exactly these entries, in this order.
pub fn build_collection(entries: Vec<(String, [u8; 32])>) -> (c: Collection)
    ensures
        collection_entries(c) == entries@.map_values(|e: (String, [u8; 32])| (e.0@, e.1@)),
{
    let mut c = collection_new();
    let n = entries.len();
    let ghost all = entries@;
    let mut rest = entries;
    let mut i: usize = 0;
    assert(rest@ =~= all.skip(0));
    while i < n
        invariant
            i <= n,
            n == all.len(),
            rest@ == all.skip(i as int),
            collection_entries(c) == all.take(i as int).map_values(|e: (String, [u8; 32])| (e.0@, e.1@)),
        decreases n - i,
    {
        let (name, hash) = rest.remove(0);
        proof {
            assert(all.skip(i as int)[0] == all[i as int]);
            assert(rest@ =~= all.skip(i + 1));
        }
        collection_push(&mut c, name, hash);
        proof {
            assert(all.take(i + 1) =~= all.take(i as int).push(all[i as int]));
            assert(collection_entries(c) =~= all.take(i + 1).map_values(|e: (String, [u8; 32])| (e.0@, e.1@)));
        }
        i = i + 1;
    }
    assert(all.take(n as int) =~= all);
    c
}

/// One file to export from a received collection: its name in the
/// collection, the hash of its contents, and where it is written.
#[derive(Clone, Debug, PartialEq, Eq)]
pub struct ExportItem {
    pub name: String,
    pub hash: [u8; 32],
    pub target: String,
}

/// Whether `plan` writes the entries, in order, each under its name joined
/// onto `output_dir`.
pub open spec fn plans_export(output_dir: Seq<char>, entries: Seq<(Seq<char>, Seq<u8>)>, plan: Seq<ExportItem>) -> bool {
    &&& plan.len() == entries.len()
    &&& forall|i: int| 0 <= i < plan.len() ==> {
        &&& (#[trigger] plan[i]).name@ == entries[i].0
        &&& plan[i].hash@ == entries[i].1
        &&& plan[i].target@ == path_join(output_dir, entries[i].0)
    }
}

/// Where each entry of a received collection is written: the entry's name
/// joined onto the output directory, in the collection's order.
pub fn export_plan(output_dir: &str, collection: &Collection) -> (plan: Vec<ExportItem>)
    ensures
        plans_export(output_dir@, collection_entries(*collection), plan@),
{
    let n = collection_len(collection);
    let mut plan: Vec<ExportItem> = Vec::new();
    let mut i: usize = 0;
    while i < n
        invariant
            i <= n,
            n == collection_entries(*collection).len(),
            plan.len() == i,
            forall|k: int| 0 <= k < i ==> {
                &&& (#[trigger] plan[k]).name@ == collection_entries(*collection)[k].0
                &&& plan[k].hash@ == collection_entries(*collection)[k].1
                &&& plan[k].target@ == path_join(output_dir@, collection_entries(*collection)[k].0)
            },
        decreases n - i,
    {
        let name = collection_name_at(collection, i);
        let hash = collection_hash_at(collection, i);
        let target = join_path(output_dir, name.as_str());
        plan.push(ExportItem { name: name.clone(), hash, target });
        i = i + 1;
    }
    plan
}

/// The entries a directory send builds from the files of its walk, in walk
/// order: each file under its name relative to the directory's canonical
/// path, with the hash of its contents.
pub open spec fn walk_entries(files: Seq<Seq<char>>, base: Seq<char>, hashes: Seq<Seq<u8>>) -> Seq<(Seq<char>, Seq<u8>)> {
    Seq::new(files.len(), |i: int| (relative_name(files[i], base), hashes[i]))
}

/// One more walked file, reserved under its relative name and completed with
/// its hash (what `reserve` then `complete` do to the entries), extends the
/// entries of the walk so far by exactly that file.
pub proof fn law_walk_step(files: Seq<Seq<char>>, base: Seq<char>, hashes: Seq<Seq<u8>>, k: int)
    requires
        0 <= k < files.len(),
        files.len() == hashes.len(),
    ensures
        walk_entries(files.take(k + 1), base, hashes.take(k + 1))
            == walk_entries(files.take(k), base, hashes.take(k)).push((relative_name(files[k], base), hashes[k])),
{
    assert(walk_entries(files.take(k + 1), base, hashes.take(k + 1))
        =~= walk_entries(files.take(k), base, hashes.take(k)).push((relative_name(files[k], base), hashes[k])));
}

/// Directory round trip: when the collection a directory send offers holds
/// the entries of its walk, the receiving side's export plan writes, in walk
/// order, each walked file's contents (its hash) to the output directory
/// joined with the file's name relative to the sent directory; and the send
/// offered that collection only with those relative names all distinct.
pub proof fn law_directory_round_trip(
    files: Seq<Seq<char>>,
    base: Seq<char>,
    hashes: Seq<Seq<u8>>,
    sent: Collection,
    output_dir: Seq<char>,
    plan: Seq<ExportItem>,
)
    requires
        files.len() == hashes.len(),
        collection_entries(sent) == walk_entries(files, base, hashes),
        plans_export(output_dir, collection_entries(sent), plan),
    ensures
        plan.len() == files.len(),
        forall|i: int| 0 <= i < files.len() ==> {
            &&& (#[trigger] plan[i]).target@ == path_join(output_dir, relative_name(files[i], base))
            &&& plan[i].name@ == relative_name(files[i], base)
            &&& plan[i].hash@ == hashes[i]
        },
        collection_names(sent).no_duplicates() ==> forall|i: int, j: int|
            0 <= i < j < files.len() ==> relative_name(files[i], base) != relative_name(files[j], base),
{
    let entries = collection_entries(sent);
    assert forall|i: int| 0 <= i < files.len() implies {
        &&& (#[trigger] plan[i]).target@ == path_join(output_dir, relative_name(files[i], base))
        &&& plan[i].name@ == relative_name(files[i], base)
        &&& plan[i].hash@ == hashes[i]
    } by {
        assert(entries[i] == (relative_name(files[i], base), hashes[i]));
    }
    if collection_names(sent).no_duplicates() {
        assert forall|i: int, j: int| 0 <= i < j < files.len() implies
            relative_name(files[i], base) != relative_name(files[j], base) by {
            assert(collection_names(sent)[i] == entries[i].0);
            assert(collection_names(sent)[j] == entries[j].0);
            assert(entries[i].0 == relative_name(files[i], base));
            assert(entries[j].0 == relative_name(files[j], base));
        }
    }
}

} // verus!
