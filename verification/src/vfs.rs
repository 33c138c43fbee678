//! The directory nesting of a disc's file system table: which directory each entry sits in.
//! Entries are numbered from one (the root directory is entry zero), and a directory's end
//! index is one past its last entry.
use vstd::prelude::*;

verus! {

/// An entry of the file system table, as the nesting reads it.
#[derive(Debug, Clone, Copy, PartialEq, Eq, Structural)]
pub enum FsEntry {
    File,
    Directory { end_index: u32 },
}

/// Closes the open directories that end at entry `at`: while the innermost ends there, it is
/// closed. `None` where that would close every directory, the root too.
pub open spec fn close(dirs: Seq<u32>, ends: Seq<u32>, at: int) -> Option<(Seq<u32>, Seq<u32>)>
    decreases ends.len(),
{
    if ends.len() == 0 || dirs.len() != ends.len() {
        None
    } else if ends.last() == at {
        close(dirs.drop_last(), ends.drop_last(), at)
    } else {
        Some((dirs, ends))
    }
}

/// The walk over the first `n` entries: the open directories (by entry number) with their
/// ends, innermost last, and the directory of each entry walked. The root is open at first,
/// ending at `root_end`. Before each entry the directories that end there are closed; the
/// entry sits in the innermost one left open, and a directory entry opens in turn. `None`
/// where the walk closes the root.
pub open spec fn walk(entries: Seq<FsEntry>, root_end: u32, n: int) -> Option<(Seq<u32>, Seq<u32>, Seq<u32>)>
    decreases n,
{
    if n <= 0 {
        Some((seq![0u32], seq![root_end], seq![]))
    } else {
        match walk(entries, root_end, n - 1) {
            None => None,
            Some((dirs, ends, parents)) => match close(dirs, ends, n) {
                None => None,
                Some((d, e)) => match entries[n - 1] {
                    FsEntry::File => Some((d, e, parents.push(d.last()))),
                    FsEntry::Directory { end_index } => Some((d.push(n as u32), e.push(end_index), parents.push(d.last()))),
                },
            },
        }
    }
}

/// The directory of each entry, from the walk over them all; empty where the walk fails.
pub open spec fn parents_of(entries: Seq<FsEntry>, root_end: u32) -> Seq<u32> {
    match walk(entries, root_end, entries.len() as int) {
        Some((dirs, ends, parents)) => parents,
        None => seq![],
    }
}

/// Once the walk has failed, it stays failed.
proof fn lemma_walk_fails_on(entries: Seq<FsEntry>, root_end: u32, k: int, n: int)
    requires
        0 <= k <= n,
        walk(entries, root_end, k) is None,
    ensures
        walk(entries, root_end, n) is None,
    decreases n - k,
{
    if k < n {
        lemma_walk_fails_on(entries, root_end, k + 1, n);
    }
}

/// The directory that each entry of the table sits in, by entry number (zero for the root):
/// the walk over all entries. A table whose walk closes the root is left out.
pub fn entry_parents(entries: &[FsEntry], root_end: u32) -> (r: Vec<u32>)
    requires
        entries@.len() < u32::MAX,
        walk(entries@, root_end, entries@.len() as int) is Some,
    ensures
        r@ == parents_of(entries@, root_end),
{
    let mut dirs: Vec<u32> = vec![0u32];
    let mut ends: Vec<u32> = vec![root_end];
    let mut parents: Vec<u32> = Vec::new();
    let mut index: usize = 0;
    assert(dirs@ =~= seq![0u32]);
    assert(ends@ =~= seq![root_end]);
    while index < entries.len()
        invariant
            index <= entries@.len() < u32::MAX,
            walk(entries@, root_end, entries@.len() as int) is Some,
            walk(entries@, root_end, index as int) == Some((dirs@, ends@, parents@)),
        decreases entries.len() - index,
    {
        let at: u32 = index as u32 + 1;
        proof {
            if walk(entries@, root_end, at as int) is None {
                lemma_walk_fails_on(entries@, root_end, at as int, entries@.len() as int);
            }
        }
        let ghost d0 = dirs@;
        let ghost e0 = ends@;
        while ends.len() > 0 && dirs.len() == ends.len() && ends[ends.len() - 1] == at
            invariant
                close(dirs@, ends@, at as int) == close(d0, e0, at as int),
                close(d0, e0, at as int) is Some,
            decreases ends.len(),
        {
            dirs.pop();
            ends.pop();
        }
        let parent = dirs[dirs.len() - 1];
        match entries[index] {
            FsEntry::File => {},
            FsEntry::Directory { end_index } => {
                dirs.push(at);
                ends.push(end_index);
            },
        }
        parents.push(parent);
        index += 1;
    }
    parents
}


/// Closing directories keeps a non-empty prefix of the open ones.
proof fn lemma_close_prefix(dirs: Seq<u32>, ends: Seq<u32>, at: int)
    requires
        close(dirs, ends, at) is Some,
    ensures
        ({
            let (d, e) = close(dirs, ends, at)->Some_0;
            &&& 0 < d.len() <= dirs.len()
            &&& d == dirs.take(d.len() as int)
            &&& d.len() == e.len()
        }),
    decreases ends.len(),
{
    if ends.len() > 0 && dirs.len() == ends.len() && ends.last() == at {
        lemma_close_prefix(dirs.drop_last(), ends.drop_last(), at);
        let d = close(dirs, ends, at)->Some_0.0;
        assert(dirs.drop_last().take(d.len() as int) =~= dirs.take(d.len() as int));
    } else {
        assert(dirs.take(dirs.len() as int) =~= dirs);
    }
}

/// Walking `n` entries gives each a directory, and every open directory and every entry's
/// directory comes before the entry: it is the root or an earlier entry.
proof fn lemma_walk_order(entries: Seq<FsEntry>, root_end: u32, n: int)
    requires
        0 <= n <= entries.len() < u32::MAX,
        walk(entries, root_end, n) is Some,
    ensures
        ({
            let (dirs, ends, parents) = walk(entries, root_end, n)->Some_0;
            &&& parents.len() == n
            &&& dirs.len() == ends.len() > 0
            &&& forall|k: int| 0 <= k < dirs.len() ==> #[trigger] dirs[k] <= n
            &&& forall|i: int| 0 <= i < n ==> #[trigger] parents[i] <= i
        }),
    decreases n,
{
    if n > 0 {
        if walk(entries, root_end, n - 1) is None {
            assert(walk(entries, root_end, n) is None);
        }
        lemma_walk_order(entries, root_end, n - 1);
        let (dirs, ends, parents) = walk(entries, root_end, n - 1)->Some_0;
        lemma_close_prefix(dirs, ends, n);
        let (d, e) = close(dirs, ends, n)->Some_0;
        assert(d.last() == dirs[d.len() - 1]);
    }
}

/// Every entry of a table whose walk succeeds sits in the root or in a directory entry that
/// comes before it: entry `i + 1` has a directory numbered at most `i`.
pub proof fn law_parent_comes_first(entries: Seq<FsEntry>, root_end: u32, i: int)
    requires
        entries.len() < u32::MAX,
        walk(entries, root_end, entries.len() as int) is Some,
        0 <= i < entries.len(),
    ensures
        parents_of(entries, root_end).len() == entries.len(),
        parents_of(entries, root_end)[i] <= i,
{
    lemma_walk_order(entries, root_end, entries.len() as int);
}

} // verus!
