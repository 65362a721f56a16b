//! The narrowed printer: the entries whose names the pattern accepts, and
//! above each of them the headers of the directories that lead to it.

use vstd::prelude::*;
use vstd::string::*;
use crate::entry::{Entry, EntryKind, EntryView, KindView, Listing, ListingView};
use crate::line::{
    entry_line,
    format_line,
    lemma_render_concat,
    lemma_render_single,
    render,
    render_line,
    Line,
    Marker,
};
use crate::pattern::PatternMatcher;
use crate::policy::TraversalPolicy;

verus! {

/// The lines for one entry found at `depth`. A file or a symbolic link has
/// its line if its name is accepted. A directory has its header if its name
/// is accepted or anything below it has a line, and then the lines of what
/// is below follow the header. Nothing deeper than the policy admits has a
/// line. Whether the policy shows files or symbolic links plays no part.
pub open spec fn filtered_entry_lines(
    entry: EntryView,
    depth: nat,
    policy: TraversalPolicy,
    accepts: spec_fn(Seq<char>) -> bool,
) -> Seq<Line>
    decreases entry, 0nat,
{
    if !policy.admits(depth) {
        Seq::empty()
    } else {
        match entry.kind {
            KindView::Directory(listing) => {
                let below = filtered_listing_lines(listing, depth + 1, policy, accepts);
                if accepts(entry.name) || below.len() > 0 {
                    seq![entry_line(depth, Marker::Directory, entry.name)] + below
                } else {
                    Seq::empty()
                }
            },
            KindView::File => if accepts(entry.name) {
                seq![entry_line(depth, Marker::File, entry.name)]
            } else {
                Seq::empty()
            },
            KindView::Symlink => if accepts(entry.name) {
                seq![entry_line(depth, Marker::Symlink, entry.name)]
            } else {
                Seq::empty()
            },
            KindView::Other => Seq::empty(),
        }
    }
}

/// The lines for the first `count` of `entries`, all found at `depth`.
pub open spec fn filtered_prefix_lines(
    entries: Seq<EntryView>,
    count: nat,
    depth: nat,
    policy: TraversalPolicy,
    accepts: spec_fn(Seq<char>) -> bool,
) -> Seq<Line>
    decreases entries, count,
{
    if count == 0 || count > entries.len() {
        Seq::empty()
    } else {
        filtered_prefix_lines(entries, (count - 1) as nat, depth, policy, accepts)
            + filtered_entry_lines(entries[count - 1], depth, policy, accepts)
    }
}

/// The lines for the entries of a directory, which stand at `depth`. A
/// directory that could not be read counts as empty.
pub open spec fn filtered_listing_lines(
    listing: ListingView,
    depth: nat,
    policy: TraversalPolicy,
    accepts: spec_fn(Seq<char>) -> bool,
) -> Seq<Line>
    decreases listing, 0nat,
{
    if !policy.admits(depth) {
        Seq::empty()
    } else {
        match listing {
            ListingView::Unreadable => Seq::empty(),
            ListingView::Entries(entries) => filtered_prefix_lines(
                entries,
                entries.len(),
                depth,
                policy,
                accepts,
            ),
        }
    }
}

/// The output of one directory while its entries are being evaluated.
#[derive(Debug, PartialEq, Eq)]
pub struct RenderBuffer {
    /// The text that still waits to be written: the header and, behind it,
    /// the text of the entries below. Empty once it has been written.
    pub text: String,
    /// Whether the directory is known to be shown.
    pub displayed: bool,
    /// Whether the headers of all directories above this one are written.
    pub committed: bool,
}

impl RenderBuffer {
    /// Starts the evaluation of a directory whose name is `accepted` or
    /// not. The header is written at once where the directory is sure to be
    /// shown and everything above it is written; else it waits.
    pub fn open(header: String, accepted: bool, committed: bool, sink: &mut String) -> (buffer:
        RenderBuffer)
        ensures
            buffer.displayed == accepted,
            buffer.committed == committed,
            accepted && committed ==> final(sink)@ == old(sink)@ + header@ && buffer.text@
                == Seq::<char>::empty(),
            !(accepted && committed) ==> final(sink)@ == old(sink)@ && buffer.text@ == header@,
    {
        if accepted && committed {
            sink.append(header.as_str());
            RenderBuffer { text: String::new(), displayed: accepted, committed }
        } else {
            RenderBuffer { text: header, displayed: accepted, committed }
        }
    }

    /// Whether an entry below may write for itself: the directory is shown
    /// and nothing above it waits.
    pub fn flushes(&self) -> (direct: bool)
        ensures
            direct == (self.displayed && self.committed),
    {
        self.displayed && self.committed
    }

    /// Takes in the text of an entry below that has something to show, so
    /// that the directory is shown too. Where everything above is written,
    /// what waited is written and then `child`; else `child` waits behind
    /// what already does.
    pub fn commit(&mut self, child: &str, sink: &mut String)
        ensures
            final(self).displayed,
            final(self).committed == old(self).committed,
            old(self).committed ==> final(sink)@ == old(sink)@ + old(self).text@ + child@
                && final(self).text@ == Seq::<char>::empty(),
            !old(self).committed ==> final(sink)@ == old(sink)@ && final(self).text@ == old(
                self,
            ).text@ + child@,
    {
        if self.committed {
            sink.append(self.text.as_str());
            sink.append(child);
            self.text = String::new();
        } else {
            self.text.append(child);
        }
        self.displayed = true;
    }

    /// Ends the evaluation: the text that still waits, if the directory is
    /// shown, and nothing if it is not.
    pub fn close(self) -> (result: Option<String>)
        ensures
            self.displayed ==> result == Some(self.text),
            !self.displayed ==> result is None,
    {
        if self.displayed {
            Some(self.text)
        } else {
            None
        }
    }
}

/// The line of a file or symbolic link found at `depth`, if its name was
/// accepted.
pub fn leaf_buffer(accepted: bool, depth: usize, marker: Marker, name: &str) -> (result: Option<
    String,
>)
    ensures
        accepted ==> (result matches Some(text) && text@ == render_line(
            entry_line(depth as nat, marker, name@),
        )),
        !accepted ==> result is None,
{
    if accepted {
        Some(format_line(depth, marker, name))
    } else {
        None
    }
}

/// Whether an evaluation writes to the sink itself: only a directory does,
/// and only where the headers of all directories above it are written.
pub open spec fn writes_directly(entry: EntryView, parent_printed: bool) -> bool {
    parent_printed && entry.kind is Directory
}

/// Evaluates one entry found at `depth`. What it has to show is either
/// written to `sink` or handed back, never both: a directory below written
/// headers writes for itself and hands back an empty text, everything else
/// hands its text back and writes nothing. `None` says that the entry has
/// nothing to show.
pub fn search_and_print(
    entry: &Entry,
    depth: usize,
    policy: &TraversalPolicy,
    matcher: &PatternMatcher,
    sink: &mut String,
    parent_printed: bool,
) -> (result: Option<String>)
    ensures
        ({
            let lines = filtered_entry_lines(entry@, depth as nat, *policy, matcher.predicate());
            let direct = writes_directly(entry@, parent_printed);
            &&& final(sink)@ == old(sink)@ + (if direct {
                render(lines)
            } else {
                Seq::empty()
            })
            &&& result is Some <==> lines.len() > 0
            &&& result matches Some(text) ==> text@ == (if direct {
                Seq::empty()
            } else {
                render(lines)
            })
        }),
    decreases entry,
{
    let ghost accepts = matcher.predicate();
    if depth > policy.max_depth {
        return None;
    }
    let accepted = matcher.matches(entry.name.as_str());
    match &entry.kind {
        EntryKind::Directory(listing) => {
            let ghost header = entry_line(depth as nat, Marker::Directory, entry.name@);
            let ghost below = filtered_listing_lines(listing@, depth as nat + 1, *policy, accepts);
            let header_text = format_line(depth, Marker::Directory, entry.name.as_str());
            let mut buffer = RenderBuffer::open(header_text, accepted, parent_printed, sink);
            if policy.descends(depth) {
                match listing {
                    Listing::Unreadable => {},
                    Listing::Entries(entries) => {
                        let ghost models = listing@->Entries_0;
                        let mut index: usize = 0;
                        while index < entries.len()
                            invariant
                                index <= entries.len(),
                                depth < policy.max_depth,
                                accepts == matcher.predicate(),
                                header == entry_line(depth as nat, Marker::Directory, entry.name@),
                                entry.kind == EntryKind::Directory(*listing),
                                listing == Listing::Entries(*entries),
                                models == listing@->Entries_0,
                                models.len() == entries.len(),
                                forall|i: int|
                                    0 <= i < entries.len() ==> models[i] == #[trigger] entries[i]@,
                                buffer.committed == parent_printed,
                                ({
                                    let seen = filtered_prefix_lines(
                                        models,
                                        index as nat,
                                        depth as nat + 1,
                                        *policy,
                                        accepts,
                                    );
                                    &&& buffer.displayed == (accepted || seen.len() > 0)
                                    &&& parent_printed && buffer.displayed ==> sink@ == old(sink)@
                                        + render_line(header) + render(seen) && buffer.text@
                                        == Seq::<char>::empty()
                                    &&& parent_printed && !buffer.displayed ==> sink@ == old(sink)@
                                        && buffer.text@ == render_line(header)
                                    &&& !parent_printed ==> sink@ == old(sink)@ && buffer.text@
                                        == render_line(header) + render(seen)
                                }),
                            decreases entries.len() - index,
                        {
                            let child = &entries[index];
                            let ghost seen = filtered_prefix_lines(
                                models,
                                index as nat,
                                depth as nat + 1,
                                *policy,
                                accepts,
                            );
                            let ghost own = filtered_entry_lines(
                                child@,
                                depth as nat + 1,
                                *policy,
                                accepts,
                            );
                            proof {
                                assert(decreases_to!(entry.kind => entry.kind->Directory_0));
                            }
                            let direct = buffer.flushes();
                            match search_and_print(child, depth + 1, policy, matcher, sink, direct) {
                                Some(text) => {
                                    buffer.commit(text.as_str(), sink);
                                },
                                None => {},
                            }
                            proof {
                                lemma_render_concat(seen, own);
                            }
                            index = index + 1;
                        }
                    },
                }
            }
            proof {
                lemma_render_single(header);
                lemma_render_concat(seq![header], below);
            }
            buffer.close()
        },
        EntryKind::File => {
            proof {
                lemma_render_single(entry_line(depth as nat, Marker::File, entry.name@));
            }
            leaf_buffer(accepted, depth, Marker::File, entry.name.as_str())
        },
        EntryKind::Symlink => {
            proof {
                lemma_render_single(entry_line(depth as nat, Marker::Symlink, entry.name@));
            }
            leaf_buffer(accepted, depth, Marker::Symlink, entry.name.as_str())
        },
        EntryKind::Other => None,
    }
}

} // verus!
