//! The guarantees the listing pipeline gives as a whole, stated and proved
//! over the specification functions that the executable functions' contracts
//! use.

use vstd::prelude::*;
use crate::list::DirectoryEntry;
use crate::list::entry_visible;
use crate::list::spec_keep;
use crate::list::spec_line;
use crate::list::spec_lines;
use crate::list::spec_list;
use crate::list::spec_listed_lines;
use crate::list::spec_render;
use crate::list::spec_visible;
use crate::order::lines_sorted;
use crate::order::spec_sort;
use crate::order::lemma_sort_ensures;

verus! {

/// The names of a sequence of entries, in entry order.
pub open spec fn entry_names(s: Seq<DirectoryEntry>) -> Seq<Seq<char>> {
    s.map_values(|e: DirectoryEntry| e.name@)
}

/// In short format the lines are exactly the entries' names, in order.
proof fn lemma_short_lines_are_names(s: Seq<DirectoryEntry>)
    ensures
        spec_lines(s, false) == entry_names(s),
    decreases s.len(),
{
    if s.len() == 0 {
        assert(spec_lines(s, false) =~= entry_names(s));
    } else {
        lemma_short_lines_are_names(s.skip(1));
        assert(spec_line(s[0], false) == Some(s[0].name@));
        assert(entry_names(s) =~= seq![s[0].name@] + entry_names(s.skip(1)));
    }
}

/// The hidden-entry filter keeps a sequence of wholly visible entries intact.
proof fn lemma_keep_of_visible_is_identity(s: Seq<DirectoryEntry>)
    requires
        forall|i: int| 0 <= i < s.len() ==> entry_visible(#[trigger] s[i]),
    ensures
        spec_keep(s) == s,
    decreases s.len(),
{
    if s.len() == 0 {
        assert(spec_keep(s) =~= s);
    } else {
        assert forall|i: int| 0 <= i < s.skip(1).len() implies entry_visible(
            #[trigger] s.skip(1)[i],
        ) by {
            assert(s.skip(1)[i] == s[i + 1]);
        }
        lemma_keep_of_visible_is_identity(s.skip(1));
        assert(seq![s[0]] + s.skip(1) =~= s);
    }
}

/// Every entry the hidden-entry filter keeps is visible, and every visible
/// entry is kept.
proof fn lemma_keep_is_exactly_the_visible(s: Seq<DirectoryEntry>)
    ensures
        forall|k: int|
            0 <= k < spec_keep(s).len() ==> entry_visible(#[trigger] spec_keep(s)[k]),
        forall|i: int|
            0 <= i < s.len() && entry_visible(#[trigger] s[i]) ==> spec_keep(s).contains(s[i]),
    decreases s.len(),
{
    if s.len() == 0 {
    } else {
        lemma_keep_is_exactly_the_visible(s.skip(1));
        let t = spec_keep(s.skip(1));
        assert forall|i: int|
            0 <= i < s.len() && entry_visible(#[trigger] s[i]) implies spec_keep(s).contains(
            s[i],
        ) by {
            if i == 0 {
                assert(spec_keep(s)[0] == s[0]);
            } else {
                assert(s.skip(1)[i - 1] == s[i]);
                let w = choose|w: int| 0 <= w < t.len() && t[w] == s[i];
                if entry_visible(s[0]) {
                    assert(spec_keep(s)[w + 1] == s[i]);
                } else {
                    assert(spec_keep(s)[w] == s[i]);
                }
            }
        }
        if entry_visible(s[0]) {
            assert forall|k: int|
                0 <= k < spec_keep(s).len() implies entry_visible(#[trigger] spec_keep(s)[k]) by {
                if k > 0 {
                    assert(spec_keep(s)[k] == t[k - 1]);
                }
            }
        }
    }
}

/// Listing a directory of wholly visible entries, without the show-all option
/// and in short format, yields exactly the entries' names, sorted ascending,
/// one per line, each terminated by a newline.
pub proof fn lemma_all_visible_short_listing(entries: Seq<DirectoryEntry>)
    requires
        forall|i: int| 0 <= i < entries.len() ==> entry_visible(#[trigger] entries[i]),
    ensures
        spec_list(entries, false, false) == spec_render(spec_sort(entry_names(entries))),
        lines_sorted(spec_listed_lines(entries, false, false)),
        spec_listed_lines(entries, false, false).to_multiset() == entry_names(
            entries,
        ).to_multiset(),
{
    lemma_keep_of_visible_is_identity(entries);
    lemma_short_lines_are_names(entries);
    lemma_sort_ensures(entry_names(entries));
}

/// Without the show-all option the hidden entries are excluded: the short
/// listing's lines are exactly the visible entries' names, sorted ascending,
/// and none of them is empty or begins with `.`.
pub proof fn lemma_hidden_entries_excluded(entries: Seq<DirectoryEntry>)
    ensures
        lines_sorted(spec_listed_lines(entries, false, false)),
        spec_listed_lines(entries, false, false).to_multiset() == entry_names(
            spec_keep(entries),
        ).to_multiset(),
        forall|k: int|
            0 <= k < spec_listed_lines(entries, false, false).len() ==> ((
            #[trigger] spec_listed_lines(entries, false, false)[k]).len() > 0
                && spec_listed_lines(entries, false, false)[k][0] != '.'),
        forall|i: int|
            0 <= i < entries.len() && entry_visible(#[trigger] entries[i])
                ==> spec_listed_lines(entries, false, false).contains(entries[i].name@),
{
    broadcast use vstd::seq_lib::group_to_multiset_ensures;

    let kept = spec_keep(entries);
    let names = entry_names(kept);
    let listed = spec_listed_lines(entries, false, false);
    lemma_short_lines_are_names(kept);
    lemma_sort_ensures(names);
    lemma_keep_is_exactly_the_visible(entries);
    assert forall|k: int| 0 <= k < listed.len() implies ((#[trigger] listed[k]).len() > 0
        && listed[k][0] != '.') by {
        assert(listed.contains(listed[k]));
        assert(listed.to_multiset().count(listed[k]) > 0);
        assert(names.contains(listed[k]));
        let w = choose|w: int| 0 <= w < names.len() && names[w] == listed[k];
        assert(entry_visible(kept[w]));
    }
    assert forall|i: int|
        0 <= i < entries.len() && entry_visible(#[trigger] entries[i]) implies listed.contains(
        entries[i].name@,
    ) by {
        let w = choose|w: int| 0 <= w < kept.len() && kept[w] == entries[i];
        assert(names[w] == entries[i].name@);
        assert(names.contains(entries[i].name@));
        assert(names.to_multiset().count(entries[i].name@) > 0);
    }
}

/// With the show-all option every entry is included: the short listing's
/// lines are exactly the names of all entries, hidden ones among them, sorted
/// ascending together.
pub proof fn lemma_show_all_includes_hidden(entries: Seq<DirectoryEntry>)
    ensures
        lines_sorted(spec_listed_lines(entries, true, false)),
        spec_listed_lines(entries, true, false).to_multiset() == entry_names(
            entries,
        ).to_multiset(),
        forall|i: int|
            0 <= i < entries.len() ==> spec_listed_lines(entries, true, false).contains(
                #[trigger] entries[i].name@,
            ),
{
    broadcast use vstd::seq_lib::group_to_multiset_ensures;

    let names = entry_names(entries);
    let listed = spec_listed_lines(entries, true, false);
    lemma_short_lines_are_names(entries);
    lemma_sort_ensures(names);
    assert forall|i: int| 0 <= i < entries.len() implies listed.contains(
        #[trigger] entries[i].name@,
    ) by {
        assert(names[i] == entries[i].name@);
        assert(names.contains(entries[i].name@));
        assert(names.to_multiset().count(entries[i].name@) > 0);
    }
}

/// The listing is a function of the directory's entries and the options
/// alone: invoked twice on an unchanged directory it yields identical output.
pub proof fn lemma_listing_idempotent(
    first: Seq<DirectoryEntry>,
    second: Seq<DirectoryEntry>,
    all: bool,
    long: bool,
)
    requires
        first == second,
    ensures
        spec_list(first, all, long) == spec_list(second, all, long),
{
}

/// An empty directory yields empty output, not an error.
pub proof fn lemma_empty_listing(all: bool, long: bool)
    ensures
        spec_list(Seq::empty(), all, long) == Seq::<char>::empty(),
{
    let none = Seq::<DirectoryEntry>::empty();
    assert(spec_keep(none) =~= none);
    assert(spec_visible(none, all) =~= none);
    assert(spec_lines(none, long) =~= Seq::<Seq<char>>::empty());
    assert(spec_sort(Seq::<Seq<char>>::empty()) =~= Seq::<Seq<char>>::empty());
}

} // verus!
