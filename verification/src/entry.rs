//! The directory tree that the printers walk, and its mathematical model.

use vstd::prelude::*;
use crate::line::Marker;

verus! {

/// What enumerating a directory gave.
#[derive(Debug, PartialEq, Eq)]
pub enum Listing {
    /// The directory could not be read.
    Unreadable,
    /// The directory's entries, in the order in which they were enumerated.
    Entries(Vec<Entry>),
}

/// What kind of thing an entry is.
#[derive(Debug, PartialEq, Eq)]
pub enum EntryKind {
    Directory(Listing),
    File,
    Symlink,
    /// Anything else, and anything whose kind could not be determined.
    Other,
}

/// One entry of a directory: the last component of its path, and its kind.
#[derive(Debug, PartialEq, Eq)]
pub struct Entry {
    pub name: String,
    pub kind: EntryKind,
}

/// The model of a [`Listing`].
pub enum ListingView {
    Unreadable,
    Entries(Seq<EntryView>),
}

/// The model of an [`EntryKind`].
pub enum KindView {
    Directory(ListingView),
    File,
    Symlink,
    Other,
}

/// The model of an [`Entry`].
pub struct EntryView {
    pub name: Seq<char>,
    pub kind: KindView,
}

/// The marker under which an entry of this kind is written, if any is.
pub open spec fn marker_of(kind: KindView) -> Option<Marker> {
    match kind {
        KindView::Directory(_) => Some(Marker::Directory),
        KindView::File => Some(Marker::File),
        KindView::Symlink => Some(Marker::Symlink),
        KindView::Other => None,
    }
}

/// The entry that `path` leads to from `entries`. Each element of the path
/// is the index of an entry; all but the last pick a directory that was
/// read, and the next is an index among what it holds.
pub open spec fn entry_at(entries: Seq<EntryView>, path: Seq<int>) -> Option<EntryView>
    decreases path.len(),
{
    if path.len() == 0 || !(0 <= path[0] < entries.len()) {
        None
    } else if path.len() == 1 {
        Some(entries[path[0]])
    } else {
        match entries[path[0]].kind {
            KindView::Directory(ListingView::Entries(inner)) => entry_at(inner, path.skip(1)),
            _ => None,
        }
    }
}

impl View for Listing {
    type V = ListingView;

    open spec fn view(&self) -> ListingView
        decreases self,
    {
        match self {
            Listing::Unreadable => ListingView::Unreadable,
            Listing::Entries(entries) => ListingView::Entries(
                Seq::new(
                    entries@.len(),
                    |i: int|
                        if 0 <= i < entries@.len() {
                            entries@[i].view()
                        } else {
                            arbitrary()
                        },
                ),
            ),
        }
    }
}

impl View for EntryKind {
    type V = KindView;

    open spec fn view(&self) -> KindView
        decreases self,
    {
        match self {
            EntryKind::Directory(listing) => KindView::Directory(listing.view()),
            EntryKind::File => KindView::File,
            EntryKind::Symlink => KindView::Symlink,
            EntryKind::Other => KindView::Other,
        }
    }
}

impl View for Entry {
    type V = EntryView;

    open spec fn view(&self) -> EntryView
        decreases self,
    {
        EntryView { name: self.name@, kind: self.kind.view() }
    }
}

} // verus!
