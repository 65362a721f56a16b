//! The plain printer: every entry that the policy shows, down to the
//! deepest level that it admits.

use vstd::prelude::*;
use vstd::string::*;
use crate::entry::{
    entry_at,
    marker_of,
    EntryKind,
    EntryView,
    KindView,
    Listing,
    ListingView,
};
use crate::line::{
    denied_line,
    entry_line,
    format_line,
    lemma_render_concat,
    lemma_render_single,
    render,
    within_levels,
    Line,
    Marker,
};
use crate::policy::TraversalPolicy;

verus! {

/// The lines for one entry found at `depth`: its own line, if the policy
/// shows its kind, and below a directory's header the lines of what it
/// holds.
pub open spec fn entry_lines(entry: EntryView, depth: nat, policy: TraversalPolicy) -> Seq<Line>
    decreases entry, 0nat,
{
    match entry.kind {
        KindView::Directory(listing) => seq![entry_line(depth, Marker::Directory, entry.name)]
            + listing_lines(listing, depth + 1, policy),
        KindView::File => if policy.show_files {
            seq![entry_line(depth, Marker::File, entry.name)]
        } else {
            Seq::empty()
        },
        KindView::Symlink => if policy.show_symlinks {
            seq![entry_line(depth, Marker::Symlink, entry.name)]
        } else {
            Seq::empty()
        },
        KindView::Other => Seq::empty(),
    }
}

/// The lines for the first `count` of `entries`, all found at `depth`.
pub open spec fn prefix_lines(
    entries: Seq<EntryView>,
    count: nat,
    depth: nat,
    policy: TraversalPolicy,
) -> Seq<Line>
    decreases entries, count,
{
    if count == 0 || count > entries.len() {
        Seq::empty()
    } else {
        prefix_lines(entries, (count - 1) as nat, depth, policy) + entry_lines(
            entries[count - 1],
            depth,
            policy,
        )
    }
}

/// The lines for a directory whose entries stand at `depth`: nothing below
/// the deepest level admitted, one notice if it could not be read, and
/// else its entries in order.
pub open spec fn listing_lines(listing: ListingView, depth: nat, policy: TraversalPolicy) -> Seq<
    Line,
>
    decreases listing, 0nat,
{
    if !policy.admits(depth) {
        Seq::empty()
    } else {
        match listing {
            ListingView::Unreadable => seq![denied_line(depth)],
            ListingView::Entries(entries) => prefix_lines(entries, entries.len(), depth, policy),
        }
    }
}

/// Whether the policy shows entries of this kind.
pub open spec fn shows(policy: TraversalPolicy, kind: KindView) -> bool {
    match kind {
        KindView::Directory(_) => true,
        KindView::File => policy.show_files,
        KindView::Symlink => policy.show_symlinks,
        KindView::Other => false,
    }
}

/// Nothing is written for a level that the policy does not admit: every
/// line of an entry found at an admitted `depth` stands between `depth` and
/// the deepest level admitted.
proof fn lemma_entry_levels(entry: EntryView, depth: nat, policy: TraversalPolicy)
    requires
        policy.admits(depth),
    ensures
        within_levels(entry_lines(entry, depth, policy), depth, policy.max_depth as nat),
    decreases entry, 0nat,
{
    match entry.kind {
        KindView::Directory(listing) => {
            lemma_listing_levels(listing, depth + 1, policy);
        },
        _ => {},
    }
}

/// As [`lemma_entry_levels`], for the first `count` of `entries`.
proof fn lemma_prefix_levels(
    entries: Seq<EntryView>,
    count: nat,
    depth: nat,
    policy: TraversalPolicy,
)
    requires
        policy.admits(depth),
    ensures
        within_levels(prefix_lines(entries, count, depth, policy), depth, policy.max_depth as nat),
    decreases entries, count,
{
    if count == 0 || count > entries.len() {
    } else {
        lemma_prefix_levels(entries, (count - 1) as nat, depth, policy);
        lemma_entry_levels(entries[count - 1], depth, policy);
    }
}

/// Nothing is written for a level that the policy does not admit: below a
/// directory whose entries stand at `depth` every line stands between
/// `depth` and the deepest level admitted, and there is no line at all if
/// `depth` itself is not admitted.
pub proof fn lemma_listing_levels(listing: ListingView, depth: nat, policy: TraversalPolicy)
    ensures
        within_levels(listing_lines(listing, depth, policy), depth, policy.max_depth as nat),
        !policy.admits(depth) ==> listing_lines(listing, depth, policy).len() == 0,
    decreases listing, 0nat,
{
    if policy.admits(depth) {
        match listing {
            ListingView::Unreadable => {},
            ListingView::Entries(entries) => {
                lemma_prefix_levels(entries, entries.len(), depth, policy);
            },
        }
    }
}

/// The lines of each of the first `count` entries are among the lines of
/// all of them together.
proof fn lemma_prefix_holds_entry(
    entries: Seq<EntryView>,
    count: nat,
    depth: nat,
    policy: TraversalPolicy,
    index: int,
    line: Line,
)
    requires
        0 <= index < count <= entries.len(),
        entry_lines(entries[index], depth, policy).contains(line),
    ensures
        prefix_lines(entries, count, depth, policy).contains(line),
    decreases count,
{
    let before = prefix_lines(entries, (count - 1) as nat, depth, policy);
    let last = entry_lines(entries[count - 1], depth, policy);
    if index == count - 1 {
        let k = choose|k: int| 0 <= k < last.len() && last[k] == line;
        assert((before + last)[before.len() + k] == line);
    } else {
        lemma_prefix_holds_entry(entries, (count - 1) as nat, depth, policy, index, line);
        let k = choose|k: int| 0 <= k < before.len() && before[k] == line;
        assert((before + last)[k] == line);
    }
}

/// Every entry that the policy shows, at a level that it admits, has its
/// line: if `path` leads from the entries of a read directory, which stand
/// at `depth`, to an entry whose kind is shown, and the entry's level is
/// admitted, then the output holds the entry's line at that level.
pub proof fn lemma_shown_entry_is_printed(
    entries: Seq<EntryView>,
    depth: nat,
    policy: TraversalPolicy,
    path: Seq<int>,
)
    requires
        entry_at(entries, path) is Some,
        shows(policy, entry_at(entries, path).unwrap().kind),
        policy.admits((depth + path.len() - 1) as nat),
    ensures
        ({
            let entry = entry_at(entries, path).unwrap();
            listing_lines(ListingView::Entries(entries), depth, policy).contains(
                entry_line(
                    (depth + path.len() - 1) as nat,
                    marker_of(entry.kind).unwrap(),
                    entry.name,
                ),
            )
        }),
    decreases path.len(),
{
    let entry = entry_at(entries, path).unwrap();
    let line = entry_line(
        (depth + path.len() - 1) as nat,
        marker_of(entry.kind).unwrap(),
        entry.name,
    );
    let first = entries[path[0]];
    let own = entry_lines(first, depth, policy);
    if path.len() == 1 {
        assert(own[0] == line);
    } else {
        let inner = first.kind->Directory_0->Entries_0;
        lemma_shown_entry_is_printed(inner, depth + 1, policy, path.skip(1));
        let below = listing_lines(first.kind->Directory_0, depth + 1, policy);
        let k = choose|k: int| 0 <= k < below.len() && below[k] == line;
        assert(own[k + 1] == line);
    }
    lemma_prefix_holds_entry(entries, entries.len(), depth, policy, path[0], line);
}

/// Appends to `sink` the tree below a directory whose entries stand at
/// `depth`.
pub fn print_contents(listing: &Listing, depth: usize, policy: &TraversalPolicy, sink: &mut String)
    ensures
        final(sink)@ == old(sink)@ + render(listing_lines(listing@, depth as nat, *policy)),
    decreases listing,
{
    if depth > policy.max_depth {
        return ;
    }
    match listing {
        Listing::Unreadable => {
            let notice = format_line(depth, Marker::Denied, "");
            sink.append(notice.as_str());
            proof {
                lemma_render_single(denied_line(depth as nat));
            }
        },
        Listing::Entries(entries) => {
            let ghost models = listing@->Entries_0;
            let mut index: usize = 0;
            while index < entries.len()
                invariant
                    index <= entries.len(),
                    depth <= policy.max_depth,
                    listing == Listing::Entries(*entries),
                    models == listing@->Entries_0,
                    models.len() == entries.len(),
                    forall|i: int| 0 <= i < entries.len() ==> models[i] == #[trigger] entries[i]@,
                    sink@ == old(sink)@ + render(
                        prefix_lines(models, index as nat, depth as nat, *policy),
                    ),
                decreases entries.len() - index,
            {
                let entry = &entries[index];
                let ghost before = prefix_lines(models, index as nat, depth as nat, *policy);
                match &entry.kind {
                    EntryKind::Directory(inner) => {
                        let header = format_line(depth, Marker::Directory, entry.name.as_str());
                        sink.append(header.as_str());
                        if policy.descends(depth) {
                            print_contents(inner, depth + 1, policy, sink);
                        }
                        proof {
                            let head = entry_line(depth as nat, Marker::Directory, entry.name@);
                            lemma_render_single(head);
                            lemma_render_concat(
                                seq![head],
                                listing_lines(inner@, depth as nat + 1, *policy),
                            );
                        }
                    },
                    EntryKind::File => {
                        if policy.show_files {
                            let text = format_line(depth, Marker::File, entry.name.as_str());
                            sink.append(text.as_str());
                            proof {
                                lemma_render_single(
                                    entry_line(depth as nat, Marker::File, entry.name@),
                                );
                            }
                        }
                    },
                    EntryKind::Symlink => {
                        if policy.show_symlinks {
                            let text = format_line(depth, Marker::Symlink, entry.name.as_str());
                            sink.append(text.as_str());
                            proof {
                                lemma_render_single(
                                    entry_line(depth as nat, Marker::Symlink, entry.name@),
                                );
                            }
                        }
                    },
                    EntryKind::Other => {},
                }
                proof {
                    lemma_render_concat(before, entry_lines(entry@, depth as nat, *policy));
                }
                index = index + 1;
            }
        },
    }
}

} // verus!
