//! Byte totals: the size of a directory from the entries of a walk over it,
//! and the sum of several sizes. A total that does not fit in `u64` is
//! reported as `None`, where unchecked addition would overflow.

use vstd::prelude::*;

verus! {

/// The sum of a sequence of sizes, as a mathematical integer.
pub open spec fn seq_sum(s: Seq<u64>) -> int
    decreases s.len(),
{
    if s.len() == 0 {
        0
    } else {
        seq_sum(s.drop_last()) + s.last()
    }
}

/// Sums of prefixes never exceed the sum of the whole.
pub proof fn lemma_sum_prefix(s: Seq<u64>, i: int)
    requires
        0 <= i <= s.len(),
    ensures
        0 <= seq_sum(s.take(i)) <= seq_sum(s),
    decreases s.len(),
{
    if s.len() > 0 {
        if i == s.len() {
            assert(s.take(i) =~= s);
            lemma_sum_prefix(s.drop_last(), s.len() - 1);
        } else {
            lemma_sum_prefix(s.drop_last(), i);
            assert(s.drop_last().take(i) =~= s.take(i));
        }
    } else {
        assert(s.take(i) =~= s);
    }
}

/// The sum of the sizes, or `None` where it exceeds `u64::MAX`.
pub fn sum_sizes(sizes: &Vec<u64>) -> (total: Option<u64>)
    ensures
        match total {
            Some(t) => t == seq_sum(sizes@),
            None => seq_sum(sizes@) > u64::MAX,
        },
{
    let n = sizes.len();
    let mut total: u64 = 0;
    let mut i: usize = 0;
    assert(sizes@.take(0) =~= Seq::<u64>::empty());
    while i < n
        invariant
            i <= n,
            n == sizes@.len(),
            total == seq_sum(sizes@.take(i as int)),
        decreases n - i,
    {
        assert(sizes@.take(i + 1).drop_last() =~= sizes@.take(i as int));
        match total.checked_add(sizes[i]) {
            Some(t) => {
                total = t;
            },
            None => {
                proof {
                    lemma_sum_prefix(sizes@, i + 1);
                }
                return None;
            },
        }
        i = i + 1;
    }
    assert(sizes@.take(n as int) =~= sizes@);
    Some(total)
}

/// One entry that a walk over a directory yielded: whether it is a file, and
/// its length where its metadata could be read.
#[derive(Clone, Copy, Debug, PartialEq, Eq)]
pub struct WalkEntry {
    pub is_file: bool,
    pub len: Option<u64>,
}

/// What an entry adds to the size of a directory: a file its length (zero
/// where unreadable), anything else nothing.
pub open spec fn walk_contribution(e: WalkEntry) -> u64 {
    if e.is_file {
        match e.len {
            Some(l) => l,
            None => 0,
        }
    } else {
        0
    }
}

/// The size of a directory: the sum of what its entries add.
pub open spec fn walk_total(entries: Seq<WalkEntry>) -> int {
    seq_sum(entries.map_values(|e: WalkEntry| walk_contribution(e)))
}

/// The size of a directory from the entries of a walk over it: the lengths
/// of its files, an unreadable length counting as zero; `None` where the sum
/// exceeds `u64::MAX`.
pub fn walk_total_size(entries: &Vec<WalkEntry>) -> (total: Option<u64>)
    ensures
        match total {
            Some(t) => t == walk_total(entries@),
            None => walk_total(entries@) > u64::MAX,
        },
{
    let mut lens: Vec<u64> = Vec::new();
    let n = entries.len();
    let mut i: usize = 0;
    while i < n
        invariant
            i <= n,
            n == entries@.len(),
            lens@ == entries@.take(i as int).map_values(|e: WalkEntry| walk_contribution(e)),
        decreases n - i,
    {
        let e = entries[i];
        let add = if e.is_file {
            match e.len {
                Some(l) => l,
                None => 0,
            }
        } else {
            0
        };
        lens.push(add);
        assert(entries@.take(i + 1) =~= entries@.take(i as int).push(e));
        assert(lens@ =~= entries@.take(i + 1).map_values(|e: WalkEntry| walk_contribution(e)));
        i = i + 1;
    }
    assert(entries@.take(n as int) =~= entries@);
    sum_sizes(&lens)
}

proof fn lemma_sum_insert(s: Seq<u64>, i: int, x: u64)
    requires
        0 <= i <= s.len(),
    ensures
        seq_sum(s.insert(i, x)) == seq_sum(s) + x,
    decreases s.len(),
{
    let t = s.insert(i, x);
    if i == s.len() {
        assert(t.drop_last() =~= s);
    } else {
        assert(t.drop_last() =~= s.drop_last().insert(i, x));
        assert(t.last() == s.last());
        lemma_sum_insert(s.drop_last(), i, x);
    }
}

/// A directory's size grows by exactly `k` when a file of `k` readable bytes
/// joins it, wherever the walk meets the new file; an entry that is no file
/// (whatever length it reports), or a file whose length cannot be read, leaves
/// the size as it was.
pub proof fn law_walk_total_new_file(entries: Seq<WalkEntry>, i: int, k: u64, other: Option<u64>)
    requires
        0 <= i <= entries.len(),
    ensures
        walk_total(entries.insert(i, WalkEntry { is_file: true, len: Some(k) })) == walk_total(entries) + k,
        walk_total(entries.insert(i, WalkEntry { is_file: false, len: other })) == walk_total(entries),
        walk_total(entries.insert(i, WalkEntry { is_file: true, len: None })) == walk_total(entries),
{
    let lens = entries.map_values(|e: WalkEntry| walk_contribution(e));
    let e = WalkEntry { is_file: true, len: Some(k) };
    assert(entries.insert(i, e).map_values(|e: WalkEntry| walk_contribution(e)) =~= lens.insert(i, k));
    lemma_sum_insert(lens, i, k);
    let d = WalkEntry { is_file: false, len: other };
    assert(entries.insert(i, d).map_values(|e: WalkEntry| walk_contribution(e)) =~= lens.insert(i, 0));
    lemma_sum_insert(lens, i, 0);
    let u = WalkEntry { is_file: true, len: None };
    assert(entries.insert(i, u).map_values(|e: WalkEntry| walk_contribution(e)) =~= lens.insert(i, 0));
}

} // verus!
