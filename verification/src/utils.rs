//! Small helpers shared by the pipeline: frame-buffer allocation and the
//! phase computation behind blinking indicators.

use vstd::prelude::*;

verus! {

/// Returns a zero-filled byte buffer of the requested size, the pre-allocated
/// backing store for a fixed-size pixel frame.
pub fn alloc_vec(size: usize) -> (v: Vec<u8>)
    ensures
        v@.len() == size,
        forall|i: int| 0 <= i < v@.len() ==> v@[i] == 0u8,
{
    let mut v: Vec<u8> = Vec::new();
    while v.len() < size
        invariant
            v@.len() <= size,
            forall|i: int| 0 <= i < v@.len() ==> v@[i] == 0u8,
        decreases size - v@.len(),
    {
        v.push(0u8);
    }
    v
}

/// Whether a blinking indicator is in its dark phase: the number of whole
/// periods elapsed is odd. The clock read stays with the caller; this is the
/// phase computation alone.
pub fn blink_phase(elapsed_ms: u128, period_ms: u128) -> (r: bool)
    requires
        period_ms > 0,
    ensures
        r == ((elapsed_ms / period_ms) % 2 == 1),
{
    let number_of_periods = elapsed_ms / period_ms;
    number_of_periods % 2 == 1
}

/// View of a directory entry: a file name and its time key in milliseconds.
pub open spec fn entry_view(e: (String, u128)) -> (Seq<char>, u128) {
    (e.0@, e.1)
}

/// View of a directory listing.
pub open spec fn entries_view(v: Seq<(String, u128)>) -> Seq<(Seq<char>, u128)> {
    Seq::new(v.len(), |i: int| entry_view(v[i]))
}

/// Inserts entry `e` into `s` after every entry whose time is at most `e`'s:
/// the stable insertion position.
pub open spec fn place_entry(s: Seq<(Seq<char>, u128)>, e: (Seq<char>, u128)) -> Seq<
    (Seq<char>, u128),
>
    decreases s.len(),
{
    if s.len() == 0 {
        seq![e]
    } else if s[0].1 <= e.1 {
        seq![s[0]] + place_entry(s.drop_first(), e)
    } else {
        seq![e] + s
    }
}

/// Stable insertion sort of directory entries by modification time.
pub open spec fn sort_entries(s: Seq<(Seq<char>, u128)>) -> Seq<(Seq<char>, u128)>
    decreases s.len(),
{
    if s.len() == 0 {
        s
    } else {
        place_entry(sort_entries(s.drop_last()), s.last())
    }
}

/// Entries are ordered by nondecreasing modification time.
pub open spec fn entries_sorted(s: Seq<(Seq<char>, u128)>) -> bool {
    forall|i: int, j: int| 0 <= i < j < s.len() ==> s[i].1 <= s[j].1
}

/// Placing an entry into a sorted sequence keeps it sorted.
proof fn lemma_place_entry_sorted(s: Seq<(Seq<char>, u128)>, e: (Seq<char>, u128))
    requires
        entries_sorted(s),
    ensures
        entries_sorted(place_entry(s, e)),
    decreases s.len(),
{
    if s.len() == 0 {
    } else if s[0].1 <= e.1 {
        assert(entries_sorted(s.drop_first()));
        lemma_place_entry_sorted(s.drop_first(), e);
        let r = seq![s[0]] + place_entry(s.drop_first(), e);
        assert forall|i: int, j: int| 0 <= i < j < r.len() implies r[i].1 <= r[j].1 by {
            lemma_place_entry_bounds(s.drop_first(), e);
            if i == 0 {
                if j - 1 < s.drop_first().len() || place_entry(s.drop_first(), e)[j - 1] == e {
                }
            }
        }
    } else {
    }
}

/// Every entry of a placed sequence is either the inserted entry or one of
/// the entries placed into.
proof fn lemma_place_entry_bounds(s: Seq<(Seq<char>, u128)>, e: (Seq<char>, u128))
    ensures
        place_entry(s, e).len() == s.len() + 1,
        forall|i: int|
            0 <= i < place_entry(s, e).len() ==> (place_entry(s, e)[i] == e || exists|k: int|
                0 <= k < s.len() && place_entry(s, e)[i] == s[k]),
    decreases s.len(),
{
    if s.len() == 0 {
    } else if s[0].1 <= e.1 {
        lemma_place_entry_bounds(s.drop_first(), e);
        let r = seq![s[0]] + place_entry(s.drop_first(), e);
        assert forall|i: int|
            0 <= i < r.len() implies (r[i] == e || exists|k: int|
                0 <= k < s.len() && r[i] == s[k]) by {
            if i == 0 {
                assert(r[0] == s[0]);
            } else if r[i] != e {
                let ki = choose|k: int|
                    0 <= k < s.drop_first().len() && place_entry(s.drop_first(), e)[i - 1]
                        == s.drop_first()[k];
                assert(r[i] == s[ki + 1]);
            }
        }
    } else {
    }
}

/// A stable sort leaves the entries ordered by modification time.
pub proof fn lemma_sort_entries_sorted(s: Seq<(Seq<char>, u128)>)
    ensures
        entries_sorted(sort_entries(s)),
    decreases s.len(),
{
    if s.len() > 0 {
        lemma_sort_entries_sorted(s.drop_last());
        lemma_place_entry_sorted(sort_entries(s.drop_last()), s.last());
    }
}

/// Placing into a prefix of sorted entries at the position the scan found
/// splices the entry in at that position.
proof fn lemma_place_entry_at(s: Seq<(Seq<char>, u128)>, e: (Seq<char>, u128), j: int)
    requires
        0 <= j <= s.len(),
        forall|k: int| 0 <= k < j ==> s[k].1 <= e.1,
        j < s.len() ==> s[j].1 > e.1,
    ensures
        place_entry(s, e) == s.subrange(0, j) + seq![e] + s.skip(j),
    decreases s.len(),
{
    if s.len() == 0 {
        assert(place_entry(s, e) =~= s.subrange(0, j) + seq![e] + s.skip(j));
    } else if j == 0 {
        assert(place_entry(s, e) =~= s.subrange(0, 0) + seq![e] + s.skip(0));
    } else {
        assert(forall|k: int| 0 <= k < j - 1 ==> s.drop_first()[k] == s[k + 1]);
        if j < s.len() {
            assert(s.drop_first()[j - 1] == s[j]);
        }
        lemma_place_entry_at(s.drop_first(), e, j - 1);
        assert(place_entry(s, e) =~= s.subrange(0, j) + seq![e] + s.skip(j));
    }
}

/// Sorts a directory listing by its time key, smallest first, keeping the
/// listing order of entries whose keys are equal. The caller picks the key;
/// the carousel lists files by how recently they were modified.
pub fn sort_files_by_modified(entries: Vec<(String, u128)>) -> (r: Vec<(String, u128)>)
    ensures
        entries_view(r@) == sort_entries(entries_view(entries@)),
        entries_sorted(entries_view(r@)),
{
    proof {
        lemma_sort_entries_sorted(entries_view(entries@));
    }
    let ghost all = entries_view(entries@);
    let mut rest = entries;
    let mut sorted: Vec<(String, u128)> = Vec::new();
    while rest.len() > 0
        invariant
            rest@.len() <= all.len(),
            entries_view(rest@) == all.skip(all.len() - rest@.len()),
            entries_view(sorted@) == sort_entries(all.subrange(0, all.len() - rest@.len())),
        decreases rest@.len(),
    {
        let ghost done = all.len() - rest@.len();
        let ghost rest_pre = rest@;
        let e = rest.remove(0);
        proof {
            rest_pre.remove_ensures(0);
            assert forall|i: int| 0 <= i < entries_view(rest@).len() implies entries_view(rest@)[i]
                == all.skip(done + 1)[i] by {
                assert(rest@[i] == rest_pre[i + 1]);
                assert(entries_view(rest@)[i] == entry_view(rest@[i]));
                assert(entries_view(rest_pre)[i + 1] == entry_view(rest_pre[i + 1]));
                assert(all.skip(done)[i + 1] == all[done + i + 1]);
                assert(all.skip(done + 1)[i] == all[done + 1 + i]);
            }
            assert(entries_view(rest@) =~= all.skip(done + 1));
            assert(entry_view(e) == entries_view(rest_pre)[0]);
        }
        let mut j: usize = 0;
        while j < sorted.len() && sorted[j].1 <= e.1
            invariant
                j <= sorted@.len(),
                forall|k: int| 0 <= k < j ==> #[trigger] entries_view(sorted@)[k].1 <= e.1,
            decreases sorted@.len() - j,
        {
            j = j + 1;
        }
        let ghost sorted_pre = entries_view(sorted@);
        proof {
            if (j as int) < sorted_pre.len() {
                assert(sorted_pre[j as int].1 == sorted@[j as int].1);
            }
            lemma_place_entry_at(sorted_pre, entry_view(e), j as int);
        }
        sorted.insert(j, e);
        proof {
            assert(entries_view(sorted@) =~= sorted_pre.subrange(0, j as int) + seq![
                entry_view(e),
            ] + sorted_pre.skip(j as int));
            assert(all.subrange(0, done + 1).drop_last() =~= all.subrange(0, done));
            assert(all.subrange(0, done + 1).last() == all[done]);
        }
    }
    proof {
        assert(all.subrange(0, all.len() as int) =~= all);
    }
    sorted
}

} // verus!
