//! Directory listings offered to the user while browsing for a file.
//!
//! A listing is built afresh each time a directory is entered. It opens with an
//! entry for the parent directory, where there is one, and goes on with the
//! directory's children in the order in which they were enumerated: every
//! subdirectory, and every file whose extension is the wanted one.

use vstd::prelude::*;
use crate::path::{
    extension_of, is_extension, parent_of, path_extension, path_parent, spec_is_extension,
};

verus! {

/// What selecting an entry leads to.
#[derive(Clone, Copy, Debug, PartialEq, Eq, Structural)]
pub enum EntryKind {
    /// The target is a directory: selecting it browses that directory.
    Directory,
    /// The target is a file: selecting it ends the browsing.
    File,
}

/// A child of the browsed directory, as enumeration found it.
#[derive(Clone, Debug, PartialEq, Eq)]
pub struct Child {
    /// The child's path as text, or `None` where it cannot be written as text.
    pub path: Option<String>,
    /// Whether the child is a directory.
    pub is_dir: bool,
}

/// The mathematical value of a [`Child`].
pub struct ChildView {
    pub path: Option<Seq<char>>,
    pub is_dir: bool,
}

impl DeepView for Child {
    type V = ChildView;

    open spec fn deep_view(&self) -> ChildView {
        ChildView { path: self.path.deep_view(), is_dir: self.is_dir }
    }
}

impl View for Child {
    type V = ChildView;

    open spec fn view(&self) -> ChildView {
        self.deep_view()
    }
}

/// One line of a listing: what the user reads, and where selecting it leads.
#[derive(Clone, Debug, PartialEq, Eq)]
pub struct Entry {
    /// The text shown to the user.
    pub label: String,
    /// The path that the entry stands for.
    pub target: String,
    /// Whether the target is browsed or returned.
    pub kind: EntryKind,
}

/// The mathematical value of an [`Entry`].
pub struct EntryView {
    pub label: Seq<char>,
    pub target: Seq<char>,
    pub kind: EntryKind,
}

impl DeepView for Entry {
    type V = EntryView;

    open spec fn deep_view(&self) -> EntryView {
        EntryView { label: self.label@, target: self.target@, kind: self.kind }
    }
}

impl View for Entry {
    type V = EntryView;

    open spec fn view(&self) -> EntryView {
        self.deep_view()
    }
}

/// The label of the entry that leads to the parent directory.
pub open spec fn parent_label() -> Seq<char> {
    "▲ Parent Directory"@
}

/// The entry that leads up to `parent`.
pub open spec fn parent_entry(parent: Seq<char>) -> EntryView {
    EntryView { label: parent_label(), target: parent, kind: EntryKind::Directory }
}

/// The kind of entry that a child makes.
pub open spec fn kind_of(is_dir: bool) -> EntryKind {
    if is_dir {
        EntryKind::Directory
    } else {
        EntryKind::File
    }
}

/// The entry for a child at `path`: it is labelled with its own path.
pub open spec fn child_entry(path: Seq<char>, is_dir: bool) -> EntryView {
    EntryView { label: path, target: path, kind: kind_of(is_dir) }
}

/// Whether a child with the given extension is offered for selection.
///
/// Directories are always offered. A file is offered only when its extension,
/// taken as empty where it has none, is exactly the wanted one.
pub open spec fn spec_is_offered(
    is_dir: bool,
    extension: Option<Seq<char>>,
    wanted: Seq<char>,
) -> bool {
    is_dir || spec_is_extension(extension, wanted)
}

/// The entry that a child contributes to a listing, if any.
///
/// A child whose path cannot be written as text contributes nothing.
pub open spec fn offer(child: ChildView, wanted: Seq<char>) -> Option<EntryView> {
    match child.path {
        Some(path) => if spec_is_offered(child.is_dir, path_extension(path), wanted) {
            Some(child_entry(path, child.is_dir))
        } else {
            None
        },
        None => None,
    }
}

/// [`offer`] with the wanted extension fixed.
pub open spec fn offer_for(wanted: Seq<char>) -> spec_fn(ChildView) -> Option<EntryView> {
    |child: ChildView| offer(child, wanted)
}

/// The entries that the children contribute, in enumeration order.
pub open spec fn child_entries(children: Seq<ChildView>, wanted: Seq<char>) -> Seq<EntryView> {
    children.filter_map(offer_for(wanted))
}

/// The entries that open a listing: the way up, where there is one.
pub open spec fn parent_entries(parent: Option<Seq<char>>) -> Seq<EntryView> {
    match parent {
        Some(p) => seq![parent_entry(p)],
        None => Seq::empty(),
    }
}

/// The listing of a directory whose parent and children are given.
pub open spec fn listing_of(
    parent: Option<Seq<char>>,
    children: Seq<ChildView>,
    wanted: Seq<char>,
) -> Seq<EntryView> {
    parent_entries(parent) + child_entries(children, wanted)
}

/// The listing of the directory written `directory`.
pub open spec fn directory_listing(
    directory: Seq<char>,
    children: Seq<ChildView>,
    wanted: Seq<char>,
) -> Seq<EntryView> {
    listing_of(path_parent(directory), children, wanted)
}

/// The labels of a listing, in order.
pub open spec fn labels_of(listing: Seq<EntryView>) -> Seq<Seq<char>> {
    Seq::new(listing.len(), |i: int| listing[i].label)
}

/// Decides whether a child with the given extension is offered for selection.
pub fn is_offered(is_dir: bool, extension: &Option<String>, wanted: &String) -> (keep: bool)
    ensures
        keep == spec_is_offered(is_dir, extension.deep_view(), wanted@),
{
    is_dir || is_extension(extension, wanted)
}

/// The entries offered for one directory, in the order shown to the user.
#[derive(Clone, Debug, PartialEq, Eq)]
pub struct Listing {
    entries: Vec<Entry>,
}

impl View for Listing {
    type V = Seq<EntryView>;

    closed spec fn view(&self) -> Seq<EntryView> {
        self.entries.deep_view()
    }
}

impl Listing {
    /// Opens a listing with the way up to `parent`, where there is one.
    pub fn begin(parent: Option<String>) -> (listing: Listing)
        ensures
            listing@ == parent_entries(parent.deep_view()),
    {
        let mut entries: Vec<Entry> = Vec::new();
        match parent {
            Some(target) => {
                let label = "▲ Parent Directory".to_owned();
                entries.push(Entry { label, target, kind: EntryKind::Directory });
            },
            None => {},
        }
        Listing { entries }
    }

    /// Appends the entry for a child at `path`.
    pub fn push_child(&mut self, path: String, is_dir: bool)
        ensures
            final(self)@ == old(self)@.push(child_entry(path@, is_dir)),
    {
        let kind = if is_dir {
            EntryKind::Directory
        } else {
            EntryKind::File
        };
        let label = path.clone();
        self.entries.push(Entry { label, target: path, kind });
    }

    /// The number of entries.
    pub fn len(&self) -> (n: usize)
        ensures
            n == self@.len(),
    {
        self.entries.len()
    }

    /// Whether there is nothing to choose from.
    pub fn is_empty(&self) -> (empty: bool)
        ensures
            empty == (self@.len() == 0),
    {
        self.entries.len() == 0
    }

    /// The entry at `index`, or `None` where the listing is shorter.
    pub fn entry(&self, index: usize) -> (entry: Option<&Entry>)
        ensures
            match entry {
                Some(e) => index < self@.len() && e@ == self@[index as int],
                None => index >= self@.len(),
            },
    {
        if index < self.entries.len() {
            Some(&self.entries[index])
        } else {
            None
        }
    }

    /// The labels to show, one for each entry, in order.
    pub fn labels(&self) -> (labels: Vec<String>)
        ensures
            labels.deep_view() == labels_of(self@),
    {
        let mut labels: Vec<String> = Vec::new();
        let mut i: usize = 0;
        while i < self.entries.len()
            invariant
                i <= self.entries.len(),
                labels.len() == i,
                forall|j: int| 0 <= j < i ==> labels[j]@ == self@[j].label,
            decreases self.entries.len() - i,
        {
            labels.push(self.entries[i].label.clone());
            i += 1;
        }
        proof {
            assert(labels.deep_view() =~= labels_of(self@));
        }
        labels
    }
}

/// Builds the listing of `directory` from its enumerated `children`.
///
/// The way up comes first, where the directory has a parent. Each child that
/// has a path in text follows if it is a directory or a file with the wanted
/// extension; the others are passed over.
pub fn build_listing(directory: &str, children: &Vec<Child>, wanted: &String) -> (listing: Listing)
    ensures
        listing@ == directory_listing(directory@, children.deep_view(), wanted@),
{
    let mut listing = Listing::begin(parent_of(directory));
    let ghost all = children.deep_view();
    let mut i: usize = 0;
    while i < children.len()
        invariant
            i <= children.len(),
            all == children.deep_view(),
            listing@ == parent_entries(path_parent(directory@)) + child_entries(
                all.take(i as int),
                wanted@,
            ),
        decreases children.len() - i,
    {
        let child = &children[i];
        proof {
            all.lemma_filter_map_take_succ(offer_for(wanted@), i as int);
        }
        match &child.path {
            Some(path) => {
                let extension = extension_of(path.as_str());
                if is_offered(child.is_dir, &extension, wanted) {
                    listing.push_child(path.clone(), child.is_dir);
                }
            },
            None => {},
        }
        i += 1;
    }
    proof {
        assert(all.take(i as int) =~= all);
    }
    listing
}

} // verus!
