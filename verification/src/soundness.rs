//! What holds of the narrowed tree: which entries have a line, and why each
//! line is there.

use vstd::prelude::*;
use crate::entry::{entry_at, marker_of, EntryView, KindView, ListingView};
use crate::filtered::{filtered_entry_lines, filtered_listing_lines, filtered_prefix_lines};
use crate::line::{entry_line, within_levels, Line, Marker};
use crate::policy::TraversalPolicy;

verus! {

/// Whether `path` leads from `entries`, which stand at `depth`, to an entry
/// that is a directory, a file or a symbolic link, whose name is accepted
/// and whose level the policy admits.
pub open spec fn leads_to_accepted(
    entries: Seq<EntryView>,
    path: Seq<int>,
    depth: nat,
    policy: TraversalPolicy,
    accepts: spec_fn(Seq<char>) -> bool,
) -> bool {
    &&& entry_at(entries, path) matches Some(found) && marker_of(found.kind) is Some && accepts(
        found.name,
    )
    &&& policy.admits((depth + path.len() - 1) as nat)
}

/// Whether something below `entry`, itself found at `depth`, is accepted
/// at a level that the policy admits.
pub open spec fn matching_below(
    entry: EntryView,
    depth: nat,
    policy: TraversalPolicy,
    accepts: spec_fn(Seq<char>) -> bool,
) -> bool {
    let level = depth + 1;
    entry.kind matches KindView::Directory(ListingView::Entries(entries)) && exists|
        path: Seq<int>,
    | #[trigger] leads_to_accepted(entries, path, level, policy, accepts)
}

/// Whether the line at `index` is a header and the next line stands one
/// level below it.
pub open spec fn steps_down(lines: Seq<Line>, index: int) -> bool {
    lines[index].marker == Marker::Directory && lines[index + 1].depth == lines[index].depth + 1
}

/// Whether the lines from `from` to `to` go down one level at a time,
/// through headers, to a line whose name is accepted.
pub open spec fn descends_to_match(
    lines: Seq<Line>,
    from: int,
    to: int,
    accepts: spec_fn(Seq<char>) -> bool,
) -> bool {
    &&& 0 <= from <= to < lines.len()
    &&& accepts(lines[to].name)
    &&& forall|k: int| from <= k < to ==> #[trigger] steps_down(lines, k)
}

/// Whether the line at `index` is there for a reason: its own name is
/// accepted, or it is a header and the lines that follow it go straight
/// down to an accepted name.
pub open spec fn has_reason(lines: Seq<Line>, index: int, accepts: spec_fn(Seq<char>) -> bool) -> bool {
    exists|to: int| descends_to_match(lines, index, to, accepts)
}

/// Whether every line is there for a reason.
pub open spec fn all_have_reason(lines: Seq<Line>, accepts: spec_fn(Seq<char>) -> bool) -> bool {
    forall|index: int| 0 <= index < lines.len() ==> #[trigger] has_reason(lines, index, accepts)
}

/// An entry with lines among the first `count` gives the first `count`
/// lines.
proof fn lemma_prefix_nonempty(
    entries: Seq<EntryView>,
    count: nat,
    depth: nat,
    policy: TraversalPolicy,
    accepts: spec_fn(Seq<char>) -> bool,
    index: int,
)
    requires
        0 <= index < count <= entries.len(),
        filtered_entry_lines(entries[index], depth, policy, accepts).len() > 0,
    ensures
        filtered_prefix_lines(entries, count, depth, policy, accepts).len() > 0,
    decreases count,
{
    if index < count - 1 {
        lemma_prefix_nonempty(entries, (count - 1) as nat, depth, policy, accepts, index);
    }
}

/// Where the first `count` entries have lines, one of them has.
proof fn lemma_prefix_source(
    entries: Seq<EntryView>,
    count: nat,
    depth: nat,
    policy: TraversalPolicy,
    accepts: spec_fn(Seq<char>) -> bool,
) -> (index: int)
    requires
        filtered_prefix_lines(entries, count, depth, policy, accepts).len() > 0,
    ensures
        0 <= index < count <= entries.len(),
        filtered_entry_lines(entries[index], depth, policy, accepts).len() > 0,
    decreases count,
{
    if filtered_entry_lines(entries[count - 1], depth, policy, accepts).len() > 0 {
        count - 1
    } else {
        lemma_prefix_source(entries, (count - 1) as nat, depth, policy, accepts)
    }
}

/// An accepted entry below gives lines.
proof fn lemma_accepted_gives_lines(
    entries: Seq<EntryView>,
    path: Seq<int>,
    depth: nat,
    policy: TraversalPolicy,
    accepts: spec_fn(Seq<char>) -> bool,
)
    requires
        leads_to_accepted(entries, path, depth, policy, accepts),
    ensures
        filtered_listing_lines(ListingView::Entries(entries), depth, policy, accepts).len() > 0,
    decreases path.len(),
{
    let first = entries[path[0]];
    if path.len() > 1 {
        let inner = first.kind->Directory_0->Entries_0;
        lemma_accepted_gives_lines(inner, path.skip(1), depth + 1, policy, accepts);
    }
    lemma_prefix_nonempty(entries, entries.len(), depth, policy, accepts, path[0]);
}

/// The lines of each of the first `count` entries are among the lines of
/// all of them together.
proof fn lemma_prefix_holds_entry(
    entries: Seq<EntryView>,
    count: nat,
    depth: nat,
    policy: TraversalPolicy,
    accepts: spec_fn(Seq<char>) -> bool,
    index: int,
    line: Line,
)
    requires
        0 <= index < count <= entries.len(),
        filtered_entry_lines(entries[index], depth, policy, accepts).contains(line),
    ensures
        filtered_prefix_lines(entries, count, depth, policy, accepts).contains(line),
    decreases count,
{
    let before = filtered_prefix_lines(entries, (count - 1) as nat, depth, policy, accepts);
    let last = filtered_entry_lines(entries[count - 1], depth, policy, accepts);
    if index == count - 1 {
        let k = choose|k: int| 0 <= k < last.len() && last[k] == line;
        assert((before + last)[before.len() + k] == line);
    } else {
        lemma_prefix_holds_entry(entries, (count - 1) as nat, depth, policy, accepts, index, line);
        let k = choose|k: int| 0 <= k < before.len() && before[k] == line;
        assert((before + last)[k] == line);
    }
}

/// Every accepted entry at a level that the policy admits has its line: if
/// `path` leads from the entries of a read directory, which stand at
/// `depth`, to a directory, a file or a symbolic link whose name is
/// accepted, and the entry's level is admitted, then the narrowed tree
/// holds the entry's line at that level.
pub proof fn lemma_accepted_entry_is_printed(
    entries: Seq<EntryView>,
    depth: nat,
    policy: TraversalPolicy,
    accepts: spec_fn(Seq<char>) -> bool,
    path: Seq<int>,
)
    requires
        leads_to_accepted(entries, path, depth, policy, accepts),
    ensures
        ({
            let entry = entry_at(entries, path).unwrap();
            filtered_listing_lines(ListingView::Entries(entries), depth, policy, accepts).contains(
                entry_line(
                    (depth + path.len() - 1) as nat,
                    marker_of(entry.kind).unwrap(),
                    entry.name,
                ),
            )
        }),
    decreases path.len(),
{
    let entry = entry_at(entries, path).unwrap();
    let line = entry_line(
        (depth + path.len() - 1) as nat,
        marker_of(entry.kind).unwrap(),
        entry.name,
    );
    let first = entries[path[0]];
    let own = filtered_entry_lines(first, depth, policy, accepts);
    if path.len() == 1 {
        assert(own[0] == line);
    } else {
        let inner = first.kind->Directory_0->Entries_0;
        lemma_accepted_entry_is_printed(inner, depth + 1, policy, accepts, path.skip(1));
        let below = filtered_listing_lines(first.kind->Directory_0, depth + 1, policy, accepts);
        let k = choose|k: int| 0 <= k < below.len() && below[k] == line;
        assert(own[k + 1] == line);
    }
    lemma_prefix_holds_entry(entries, entries.len(), depth, policy, accepts, path[0], line);
}

/// Lines have a source: the entry itself is accepted, or something below
/// it is.
proof fn lemma_lines_have_source(
    entry: EntryView,
    depth: nat,
    policy: TraversalPolicy,
    accepts: spec_fn(Seq<char>) -> bool,
)
    requires
        filtered_entry_lines(entry, depth, policy, accepts).len() > 0,
    ensures
        policy.admits(depth),
        marker_of(entry.kind) is Some,
        accepts(entry.name) || matching_below(entry, depth, policy, accepts),
    decreases entry,
{
    if !accepts(entry.name) {
        let entries = entry.kind->Directory_0->Entries_0;
        let index = lemma_prefix_source(entries, entries.len(), depth + 1, policy, accepts);
        let child = entries[index];
        lemma_lines_have_source(child, depth + 1, policy, accepts);
        if accepts(child.name) {
            let path = seq![index];
            assert(leads_to_accepted(entries, path, depth + 1, policy, accepts));
        } else {
            let inner = child.kind->Directory_0->Entries_0;
            let level = depth + 2;
            let rest = choose|rest: Seq<int>|
                #[trigger] leads_to_accepted(inner, rest, level, policy, accepts);
            let path = seq![index] + rest;
            assert(path.skip(1) =~= rest);
            assert(leads_to_accepted(entries, path, depth + 1, policy, accepts));
        }
    }
}

/// An entry has lines if and only if its level is admitted, it is a
/// directory, a file or a symbolic link, and its own name or a name below
/// it is accepted. Its own line is then the first.
pub proof fn lemma_shown_iff_match(
    entry: EntryView,
    depth: nat,
    policy: TraversalPolicy,
    accepts: spec_fn(Seq<char>) -> bool,
)
    ensures
        filtered_entry_lines(entry, depth, policy, accepts).len() > 0 <==> policy.admits(depth)
            && marker_of(entry.kind) is Some && (accepts(entry.name) || matching_below(
            entry,
            depth,
            policy,
            accepts,
        )),
        filtered_entry_lines(entry, depth, policy, accepts).len() > 0 ==> filtered_entry_lines(
            entry,
            depth,
            policy,
            accepts,
        )[0] == entry_line(depth, marker_of(entry.kind).unwrap(), entry.name),
{
    if filtered_entry_lines(entry, depth, policy, accepts).len() > 0 {
        lemma_lines_have_source(entry, depth, policy, accepts);
    }
    if policy.admits(depth) && matching_below(entry, depth, policy, accepts) {
        let entries = entry.kind->Directory_0->Entries_0;
        let level = depth + 1;
        let path = choose|path: Seq<int>|
            #[trigger] leads_to_accepted(entries, path, level, policy, accepts);
        lemma_accepted_gives_lines(entries, path, depth + 1, policy, accepts);
    }
}

/// A directory's header is written if and only if its name is accepted or
/// a name below it is, at a level that the policy admits.
pub proof fn lemma_header_iff_match(
    entry: EntryView,
    depth: nat,
    policy: TraversalPolicy,
    accepts: spec_fn(Seq<char>) -> bool,
)
    requires
        entry.kind is Directory,
        policy.admits(depth),
    ensures
        ({
            let lines = filtered_entry_lines(entry, depth, policy, accepts);
            let shown = accepts(entry.name) || matching_below(entry, depth, policy, accepts);
            &&& shown ==> lines.len() > 0 && lines[0] == entry_line(
                depth,
                Marker::Directory,
                entry.name,
            )
            &&& !shown ==> lines.len() == 0
        }),
{
    lemma_shown_iff_match(entry, depth, policy, accepts);
}

/// Nothing is written for a level that the policy does not admit: every
/// line of an entry found at `depth` stands between `depth` and the deepest
/// level admitted, and there is none if `depth` itself is not admitted.
pub proof fn lemma_filtered_entry_levels(
    entry: EntryView,
    depth: nat,
    policy: TraversalPolicy,
    accepts: spec_fn(Seq<char>) -> bool,
)
    ensures
        within_levels(
            filtered_entry_lines(entry, depth, policy, accepts),
            depth,
            policy.max_depth as nat,
        ),
        !policy.admits(depth) ==> filtered_entry_lines(entry, depth, policy, accepts).len() == 0,
    decreases entry, 0nat,
{
    if policy.admits(depth) {
        match entry.kind {
            KindView::Directory(listing) => {
                lemma_filtered_listing_levels(listing, depth + 1, policy, accepts);
            },
            _ => {},
        }
    }
}

/// As [`lemma_filtered_entry_levels`], for the first `count` of `entries`.
pub proof fn lemma_filtered_prefix_levels(
    entries: Seq<EntryView>,
    count: nat,
    depth: nat,
    policy: TraversalPolicy,
    accepts: spec_fn(Seq<char>) -> bool,
)
    ensures
        within_levels(
            filtered_prefix_lines(entries, count, depth, policy, accepts),
            depth,
            policy.max_depth as nat,
        ),
    decreases entries, count,
{
    if count == 0 || count > entries.len() {
    } else {
        lemma_filtered_prefix_levels(entries, (count - 1) as nat, depth, policy, accepts);
        lemma_filtered_entry_levels(entries[count - 1], depth, policy, accepts);
    }
}

/// As [`lemma_filtered_entry_levels`], for the entries of a directory.
pub proof fn lemma_filtered_listing_levels(
    listing: ListingView,
    depth: nat,
    policy: TraversalPolicy,
    accepts: spec_fn(Seq<char>) -> bool,
)
    ensures
        within_levels(
            filtered_listing_lines(listing, depth, policy, accepts),
            depth,
            policy.max_depth as nat,
        ),
        !policy.admits(depth) ==> filtered_listing_lines(listing, depth, policy, accepts).len()
            == 0,
    decreases listing, 0nat,
{
    if policy.admits(depth) {
        match listing {
            ListingView::Unreadable => {},
            ListingView::Entries(entries) => {
                lemma_filtered_prefix_levels(entries, entries.len(), depth, policy, accepts);
            },
        }
    }
}

/// Lines that all have a reason keep it when put one behind the other.
proof fn lemma_reasons_concat(a: Seq<Line>, b: Seq<Line>, accepts: spec_fn(Seq<char>) -> bool)
    requires
        all_have_reason(a, accepts),
        all_have_reason(b, accepts),
    ensures
        all_have_reason(a + b, accepts),
{
    let both = a + b;
    assert forall|index: int| 0 <= index < both.len() implies #[trigger] has_reason(
        both,
        index,
        accepts,
    ) by {
        if index < a.len() {
            assert(has_reason(a, index, accepts));
            let to = choose|to: int| descends_to_match(a, index, to, accepts);
            assert forall|k: int| index <= k < to implies #[trigger] steps_down(both, k) by {
                assert(steps_down(a, k));
            }
            assert(descends_to_match(both, index, to, accepts));
        } else {
            let shifted = index - a.len();
            assert(has_reason(b, shifted, accepts));
            let to = choose|to: int| descends_to_match(b, shifted, to, accepts);
            assert forall|k: int| index <= k < to + a.len() implies #[trigger] steps_down(
                both,
                k,
            ) by {
                assert(steps_down(b, k - a.len()));
            }
            assert(descends_to_match(both, index, to + a.len(), accepts));
        }
    }
}

/// The first line below a directory stands one level below its header.
proof fn lemma_prefix_first_level(
    entries: Seq<EntryView>,
    count: nat,
    depth: nat,
    policy: TraversalPolicy,
    accepts: spec_fn(Seq<char>) -> bool,
)
    requires
        filtered_prefix_lines(entries, count, depth, policy, accepts).len() > 0,
    ensures
        filtered_prefix_lines(entries, count, depth, policy, accepts)[0].depth == depth,
    decreases count,
{
    let before = filtered_prefix_lines(entries, (count - 1) as nat, depth, policy, accepts);
    let own = filtered_entry_lines(entries[count - 1], depth, policy, accepts);
    if before.len() > 0 {
        lemma_prefix_first_level(entries, (count - 1) as nat, depth, policy, accepts);
    } else {
    }
}

/// No header stands alone: every line of an entry's output is there for a
/// reason.
pub proof fn lemma_entry_lines_have_reason(
    entry: EntryView,
    depth: nat,
    policy: TraversalPolicy,
    accepts: spec_fn(Seq<char>) -> bool,
)
    ensures
        all_have_reason(filtered_entry_lines(entry, depth, policy, accepts), accepts),
    decreases entry, 0nat,
{
    let lines = filtered_entry_lines(entry, depth, policy, accepts);
    if lines.len() > 0 {
        match entry.kind {
            KindView::Directory(listing) => {
                let below = filtered_listing_lines(listing, depth + 1, policy, accepts);
                let head = seq![entry_line(depth, Marker::Directory, entry.name)];
                lemma_listing_lines_have_reason(listing, depth + 1, policy, accepts);
                assert forall|index: int| 0 <= index < lines.len() implies #[trigger] has_reason(
                    lines,
                    index,
                    accepts,
                ) by {
                    if index == 0 && accepts(entry.name) {
                        assert(descends_to_match(lines, 0, 0, accepts));
                    } else {
                        let shifted = if index == 0 {
                            0
                        } else {
                            index - 1
                        };
                        if index == 0 {
                            let entries = listing->Entries_0;
                            lemma_prefix_first_level(
                                entries,
                                entries.len(),
                                depth + 1,
                                policy,
                                accepts,
                            );
                        }
                        assert(has_reason(below, shifted, accepts));
                        let to = choose|to: int| descends_to_match(below, shifted, to, accepts);
                        assert forall|k: int| index <= k < to + 1 implies #[trigger] steps_down(
                            lines,
                            k,
                        ) by {
                            if k >= 1 {
                                assert(steps_down(below, k - 1));
                            }
                        }
                        assert(descends_to_match(lines, index, to + 1, accepts));
                    }
                }
            },
            _ => {
                assert(descends_to_match(lines, 0, 0, accepts));
            },
        }
    }
}

/// As [`lemma_entry_lines_have_reason`], for the first `count` of
/// `entries`.
pub proof fn lemma_prefix_lines_have_reason(
    entries: Seq<EntryView>,
    count: nat,
    depth: nat,
    policy: TraversalPolicy,
    accepts: spec_fn(Seq<char>) -> bool,
)
    ensures
        all_have_reason(filtered_prefix_lines(entries, count, depth, policy, accepts), accepts),
    decreases entries, count,
{
    if count == 0 || count > entries.len() {
    } else {
        lemma_prefix_lines_have_reason(entries, (count - 1) as nat, depth, policy, accepts);
        lemma_entry_lines_have_reason(entries[count - 1], depth, policy, accepts);
        lemma_reasons_concat(
            filtered_prefix_lines(entries, (count - 1) as nat, depth, policy, accepts),
            filtered_entry_lines(entries[count - 1], depth, policy, accepts),
            accepts,
        );
    }
}

/// No header stands alone: every line of the narrowed tree is there for a
/// reason.
pub proof fn lemma_listing_lines_have_reason(
    listing: ListingView,
    depth: nat,
    policy: TraversalPolicy,
    accepts: spec_fn(Seq<char>) -> bool,
)
    ensures
        all_have_reason(filtered_listing_lines(listing, depth, policy, accepts), accepts),
    decreases listing, 0nat,
{
    if policy.admits(depth) {
        match listing {
            ListingView::Unreadable => {},
            ListingView::Entries(entries) => {
                lemma_prefix_lines_have_reason(entries, entries.len(), depth, policy, accepts);
            },
        }
    }
}

/// A header whose own name is not accepted is followed at once by what it
/// is there for: the lines behind it go down one level at a time, through
/// headers, to a line whose name is accepted.
pub proof fn lemma_header_is_followed(
    listing: ListingView,
    depth: nat,
    policy: TraversalPolicy,
    accepts: spec_fn(Seq<char>) -> bool,
    index: int,
)
    requires
        0 <= index < filtered_listing_lines(listing, depth, policy, accepts).len(),
        !accepts(filtered_listing_lines(listing, depth, policy, accepts)[index].name),
    ensures
        ({
            let lines = filtered_listing_lines(listing, depth, policy, accepts);
            &&& lines[index].marker == Marker::Directory
            &&& index + 1 < lines.len()
            &&& lines[index + 1].depth == lines[index].depth + 1
            &&& exists|to: int| index < to && descends_to_match(lines, index, to, accepts)
        }),
{
    let lines = filtered_listing_lines(listing, depth, policy, accepts);
    lemma_listing_lines_have_reason(listing, depth, policy, accepts);
    assert(has_reason(lines, index, accepts));
    let to = choose|to: int| descends_to_match(lines, index, to, accepts);
    assert(steps_down(lines, index));
}

} // verus!
