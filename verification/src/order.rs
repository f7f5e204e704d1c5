//! Puts the entries of a header blob in the order of their offsets.
//!
//! The index of a blob need not list its entries in the order in which their
//! values lie in the data region. Before a package is assembled the entries
//! are sorted by offset, so that they are always taken in the same order.
use crate::entry::{
    entry_views, law_import_order, spec_index_entries, EntryInfo, EntryView, IndexEntry,
};
use crate::errors::DecodeError;
use vstd::prelude::*;

verus! {

/// Where an entry with the offset `offset` goes into `sorted`: just after
/// the last entry whose offset is not greater.
pub open spec fn spec_insert_at(sorted: Seq<EntryView>, offset: u32) -> int
    decreases sorted.len(),
{
    if sorted.len() == 0 {
        0
    } else if sorted.last().info.offset <= offset {
        sorted.len() as int
    } else {
        spec_insert_at(sorted.drop_last(), offset)
    }
}

/// The first `n` of `entries` in the order of their offsets; entries with
/// the same offset keep the order they had.
pub open spec fn spec_sorted_first(entries: Seq<EntryView>, n: nat) -> Seq<EntryView>
    decreases n,
{
    if n == 0 {
        Seq::empty()
    } else {
        let before = spec_sorted_first(entries, (n - 1) as nat);
        let entry = entries[n - 1];
        before.insert(spec_insert_at(before, entry.info.offset), entry)
    }
}

/// `entries` in the order of their offsets; entries with the same offset
/// keep the order they had.
pub open spec fn spec_sort_by_offset(entries: Seq<EntryView>) -> Seq<EntryView> {
    spec_sorted_first(entries, entries.len())
}

/// Whether the offsets of `entries` never decrease.
pub open spec fn spec_ordered(entries: Seq<EntryView>) -> bool {
    forall|i: int, j: int|
        0 <= i <= j < entries.len() ==> entries[i].info.offset <= entries[j].info.offset
}

proof fn lemma_insert_at(sorted: Seq<EntryView>, offset: u32)
    requires
        spec_ordered(sorted),
    ensures
        0 <= spec_insert_at(sorted, offset) <= sorted.len(),
        forall|i: int| 0 <= i < spec_insert_at(sorted, offset) ==> sorted[i].info.offset <= offset,
        forall|i: int|
            spec_insert_at(sorted, offset) <= i < sorted.len() ==> sorted[i].info.offset > offset,
    decreases sorted.len(),
{
    if sorted.len() > 0 {
        let rest = sorted.drop_last();
        if sorted.last().info.offset > offset {
            assert(spec_ordered(rest)) by {
                assert forall|i: int, j: int| 0 <= i <= j < rest.len() implies rest[i].info.offset
                    <= rest[j].info.offset by {
                    assert(rest[i] == sorted[i] && rest[j] == sorted[j]);
                }
            }
            lemma_insert_at(rest, offset);
            let at = spec_insert_at(rest, offset);
            assert forall|i: int| 0 <= i < at implies sorted[i].info.offset <= offset by {
                assert(rest[i] == sorted[i]);
            }
            assert forall|i: int| at <= i < sorted.len() implies sorted[i].info.offset
                > offset by {
                if i < rest.len() {
                    assert(rest[i] == sorted[i]);
                }
            }
        } else {
            assert forall|i: int| 0 <= i < sorted.len() implies sorted[i].info.offset
                <= offset by {
                assert(sorted[i].info.offset <= sorted[sorted.len() - 1].info.offset);
            }
        }
    }
}

proof fn lemma_sorted_first(entries: Seq<EntryView>, n: nat)
    requires
        n <= entries.len(),
    ensures
        spec_sorted_first(entries, n).len() == n,
        spec_ordered(spec_sorted_first(entries, n)),
        spec_sorted_first(entries, n).to_multiset() == entries.take(n as int).to_multiset(),
    decreases n,
{
    if n == 0 {
        assert(entries.take(0) =~= Seq::<EntryView>::empty());
    } else {
        let before = spec_sorted_first(entries, (n - 1) as nat);
        let entry = entries[n - 1];
        let at = spec_insert_at(before, entry.info.offset);
        let after = before.insert(at, entry);
        lemma_sorted_first(entries, (n - 1) as nat);
        lemma_insert_at(before, entry.info.offset);
        assert(spec_ordered(after));
        assert(after.to_multiset() == before.to_multiset().insert(entry)) by {
            broadcast use vstd::seq_lib::group_to_multiset_ensures;

            assert(after.remove(at) =~= before);
            assert(after[at] == entry);
            assert(after.remove(at).to_multiset() =~= after.to_multiset().remove(entry));
            assert(after.to_multiset().count(entry) > 0) by {
                assert(after.contains(entry));
            }
            assert(after.to_multiset() =~= before.to_multiset().insert(entry));
        }
        assert(entries.take(n as int) =~= entries.take(n - 1).push(entry));
        assert(entries.take(n as int).to_multiset() == entries.take(n - 1).to_multiset().insert(
            entry,
        )) by {
            broadcast use vstd::seq_lib::group_to_multiset_ensures;

        }
    }
}

/// Sorting by offset puts the entries in order and neither drops nor invents
/// one: every entry comes out with the tag, type and bytes it went in with.
pub proof fn law_sort_by_offset(entries: Seq<EntryView>)
    ensures
        spec_sort_by_offset(entries).len() == entries.len(),
        spec_ordered(spec_sort_by_offset(entries)),
        spec_sort_by_offset(entries).to_multiset() == entries.to_multiset(),
{
    lemma_sorted_first(entries, entries.len());
    assert(entries.take(entries.len() as int) =~= entries);
}

/// Whether the index of a blob is walked forwards or backwards, and whether
/// or not the entries are then sorted, the entries that come out are the
/// same ones, each with the bytes that its own offset and count determine.
pub proof fn law_order_independence(region: Seq<u8>, infos: Seq<EntryInfo>)
    ensures
        spec_index_entries(region, infos, infos.len()) matches Ok(entries) ==> {
            &&& spec_index_entries(region, infos.reverse(), infos.len()) == Ok::<
                Seq<EntryView>,
                DecodeError,
            >(entries.reverse())
            &&& spec_sort_by_offset(entries).to_multiset() == entries.to_multiset()
            &&& spec_sort_by_offset(entries.reverse()).to_multiset() == entries.to_multiset()
        },
{
    law_import_order(region, infos);
    match spec_index_entries(region, infos, infos.len()) {
        Ok(entries) => {
            law_sort_by_offset(entries);
            law_sort_by_offset(entries.reverse());
            entries.lemma_reverse_to_multiset();
        },
        Err(_) => {},
    }
}

/// Finds where an entry with the offset `offset` goes among the first
/// `len` entries, which are in order.
fn insert_at(entries: &Vec<IndexEntry>, len: usize, offset: u32) -> (r: usize)
    requires
        len <= entries@.len(),
    ensures
        r == spec_insert_at(entry_views(entries@).take(len as int), offset),
        r <= len,
{
    let ghost views = entry_views(entries@);
    let mut at: usize = len;
    while at > 0 && entries[at - 1].info.offset > offset
        invariant
            at <= len <= entries@.len(),
            views == entry_views(entries@),
            spec_insert_at(views.take(len as int), offset) == spec_insert_at(
                views.take(at as int),
                offset,
            ),
        decreases at,
    {
        assert(views.take(at as int).drop_last() =~= views.take(at - 1));
        at -= 1;
    }
    at
}

/// Sorts the entries by offset, keeping entries of equal offset in the order
/// they had.
pub fn sort_by_offset(entries: &mut Vec<IndexEntry>)
    ensures
        entry_views(final(entries)@) == spec_sort_by_offset(entry_views(old(entries)@)),
{
    let ghost views = entry_views(entries@);
    let n: usize = entries.len();
    let mut i: usize = 0;
    assert(entry_views(entries@) =~= spec_sorted_first(views, 0) + views.skip(0));
    while i < n
        invariant
            i <= n,
            n == views.len(),
            entries@.len() == n,
            entry_views(entries@) == spec_sorted_first(views, i as nat) + views.skip(i as int),
            spec_sorted_first(views, i as nat).len() == i,
        decreases n - i,
    {
        let ghost before = spec_sorted_first(views, i as nat);
        let ghost whole = entry_views(entries@);
        let entry: IndexEntry = entries.remove(i);
        assert(entry@ == views[i as int]) by {
            assert(whole[i as int] == views.skip(i as int)[0]);
        }
        let ghost rest = entry_views(entries@);
        assert(rest =~= whole.remove(i as int));
        assert(whole.remove(i as int) =~= before + views.skip(i + 1));
        assert(rest.take(i as int) =~= before);
        let at: usize = insert_at(entries, i, entry.info.offset);
        entries.insert(at, entry);
        assert(entry_views(entries@) =~= rest.insert(at as int, views[i as int]));
        assert(rest.insert(at as int, views[i as int]) =~= before.insert(
            at as int,
            views[i as int],
        ) + views.skip(i + 1));
        i += 1;
    }
    assert(views.skip(n as int) =~= Seq::<EntryView>::empty());
    assert(entry_views(entries@) =~= spec_sorted_first(views, n as nat));
}

} // verus!
