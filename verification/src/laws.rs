//! What holds of every listing and of every run of the picker.

use vstd::prelude::*;
use crate::error::PickError;
use crate::listing::{
    child_entries, child_entry, directory_listing, offer, offer_for, parent_entries,
    parent_entry, spec_is_offered, ChildView, EntryKind, EntryView,
};
use crate::path::{
    lemma_dotted_name, path_extension, path_file_name, path_parent, spec_is_extension,
};
use crate::picker::{
    initial, pending, run, step, well_formed, Answer, EventView, OutcomeView, RequestView,
    ScanView, StateView,
};

verus! {

/// The children of two enumerations taken one after the other contribute the
/// entries of the first followed by the entries of the second: nothing is
/// reordered, and what a child contributes does not depend on its neighbours.
pub proof fn lemma_child_entries_concat(
    first: Seq<ChildView>,
    second: Seq<ChildView>,
    wanted: Seq<char>,
)
    ensures
        child_entries(first + second, wanted) == child_entries(first, wanted) + child_entries(
            second,
            wanted,
        ),
    decreases second.len(),
{
    let f = offer_for(wanted);
    if second.len() == 0 {
        assert(first + second =~= first);
        assert(child_entries(second, wanted) =~= Seq::<EntryView>::empty());
        assert(child_entries(first, wanted) + Seq::<EntryView>::empty() =~= child_entries(
            first,
            wanted,
        ));
    } else {
        let rest = second.drop_last();
        lemma_child_entries_concat(first, rest, wanted);
        assert((first + second).drop_last() =~= first + rest);
        assert((first + second).last() == second.last());
        match f(second.last()) {
            Some(e) => {
                assert(child_entries(first + second, wanted) =~= child_entries(first, wanted)
                    + child_entries(second, wanted));
            },
            None => {},
        }
    }
}

/// An entry is among those that the children contribute exactly when some
/// child contributes it.
pub proof fn lemma_child_entries_contains(
    children: Seq<ChildView>,
    wanted: Seq<char>,
    entry: EntryView,
)
    ensures
        child_entries(children, wanted).contains(entry) <==> exists|i: int|
            0 <= i < children.len() && offer(#[trigger] children[i], wanted) == Some(entry),
    decreases children.len(),
{
    let f = offer_for(wanted);
    if children.len() == 0 {
    } else {
        let rest = children.drop_last();
        let last = children.last();
        lemma_child_entries_contains(rest, wanted, entry);
        let tail = match f(last) {
            Some(e) => seq![e],
            None => Seq::empty(),
        };
        assert(child_entries(children, wanted) =~= child_entries(rest, wanted) + tail);
        vstd::seq_lib::lemma_seq_concat_contains_all_elements(
            child_entries(rest, wanted),
            tail,
            entry,
        );
        if child_entries(children, wanted).contains(entry) {
            if child_entries(rest, wanted).contains(entry) {
                let i = choose|i: int|
                    0 <= i < rest.len() && offer(#[trigger] rest[i], wanted) == Some(entry);
                assert(children[i] == rest[i]);
            } else {
                assert(tail.contains(entry));
                assert(tail[0] == entry);
                assert(offer(children[children.len() - 1], wanted) == Some(entry));
            }
        }
        if exists|i: int|
            0 <= i < children.len() && offer(#[trigger] children[i], wanted) == Some(entry) {
            let i = choose|i: int|
                0 <= i < children.len() && offer(#[trigger] children[i], wanted) == Some(entry);
            if i < rest.len() {
                assert(rest[i] == children[i]);
            } else {
                assert(tail[0] == entry);
            }
        }
    }
}

/// Every subdirectory that has a path in text is listed, under its own path,
/// whatever the wanted extension.
pub proof fn lemma_directories_are_listed(
    directory: Seq<char>,
    children: Seq<ChildView>,
    wanted: Seq<char>,
    i: int,
)
    requires
        0 <= i < children.len(),
        children[i].is_dir,
        children[i].path is Some,
    ensures
        directory_listing(directory, children, wanted).contains(
            child_entry(children[i].path.unwrap(), true),
        ),
{
    let entry = child_entry(children[i].path.unwrap(), true);
    assert(offer(children[i], wanted) == Some(entry));
    lemma_child_entries_contains(children, wanted, entry);
    vstd::seq_lib::lemma_seq_concat_contains_all_elements(
        parent_entries(path_parent(directory)),
        child_entries(children, wanted),
        entry,
    );
}

/// A file that has a path in text is among the children's entries exactly
/// when its extension, taken as empty where it has none, is the wanted one.
pub proof fn lemma_files_are_listed_by_extension(
    children: Seq<ChildView>,
    wanted: Seq<char>,
    i: int,
)
    requires
        0 <= i < children.len(),
        !children[i].is_dir,
        children[i].path is Some,
    ensures
        child_entries(children, wanted).contains(child_entry(children[i].path.unwrap(), false))
            <==> spec_is_offered(false, path_extension(children[i].path.unwrap()), wanted),
{
    let path = children[i].path.unwrap();
    let entry = child_entry(path, false);
    lemma_child_entries_contains(children, wanted, entry);
    if child_entries(children, wanted).contains(entry) {
        let j = choose|j: int|
            0 <= j < children.len() && offer(#[trigger] children[j], wanted) == Some(entry);
        assert(children[j].path == Some(path));
        assert(!children[j].is_dir);
    }
    if spec_is_offered(false, path_extension(path), wanted) {
        assert(offer(children[i], wanted) == Some(entry));
    }
}

/// Where the wanted extension is not empty, a file that has a path in text
/// is among the children's entries exactly when its path has that extension.
/// (Where it is empty, the files without an extension are listed too.)
pub proof fn lemma_files_are_listed_by_wanted_extension(
    children: Seq<ChildView>,
    wanted: Seq<char>,
    i: int,
)
    requires
        0 <= i < children.len(),
        !children[i].is_dir,
        children[i].path is Some,
        wanted.len() > 0,
    ensures
        child_entries(children, wanted).contains(child_entry(children[i].path.unwrap(), false))
            <==> path_extension(children[i].path.unwrap()) == Some(wanted),
{
    lemma_files_are_listed_by_extension(children, wanted, i);
}

/// A file whose name is a stem, a dot and the wanted extension is listed, and
/// one whose name ends in another extension is not.
pub proof fn lemma_files_are_listed_by_name(
    children: Seq<ChildView>,
    wanted: Seq<char>,
    i: int,
    stem: Seq<char>,
    extension: Seq<char>,
)
    requires
        0 <= i < children.len(),
        !children[i].is_dir,
        children[i].path is Some,
        path_file_name(children[i].path.unwrap()) == Some(stem + seq!['.'] + extension),
        stem.len() > 0,
        forall|k: int| 0 <= k < extension.len() ==> extension[k] != '.',
    ensures
        child_entries(children, wanted).contains(child_entry(children[i].path.unwrap(), false))
            <==> extension == wanted,
{
    lemma_dotted_name(stem, extension);
    lemma_files_are_listed_by_extension(children, wanted, i);
}

/// Every entry that a child contributes is labelled with its own target, and
/// where it is a file, its target has the wanted extension.
pub proof fn lemma_child_entries_are_sound(
    children: Seq<ChildView>,
    wanted: Seq<char>,
    k: int,
)
    requires
        0 <= k < child_entries(children, wanted).len(),
    ensures
        ({
            let entry = child_entries(children, wanted)[k];
            &&& entry.label == entry.target
            &&& entry.kind == EntryKind::File ==> spec_is_offered(
                false,
                path_extension(entry.target),
                wanted,
            )
        }),
{
    let entry = child_entries(children, wanted)[k];
    assert(child_entries(children, wanted).contains(entry));
    lemma_child_entries_contains(children, wanted, entry);
    let i = choose|i: int|
        0 <= i < children.len() && offer(#[trigger] children[i], wanted) == Some(entry);
    assert(offer(children[i], wanted) == Some(entry));
}

/// A directory that has a parent is listed with the way up first, leading to
/// exactly that parent, and its children after it. A directory without a
/// parent is listed with its children alone.
pub proof fn lemma_way_up_comes_first(
    directory: Seq<char>,
    children: Seq<ChildView>,
    wanted: Seq<char>,
)
    ensures
        match path_parent(directory) {
            Some(parent) => {
                let listing = directory_listing(directory, children, wanted);
                &&& listing.len() > 0
                &&& listing[0] == parent_entry(parent)
                &&& listing[0].target == parent
                &&& listing[0].kind == EntryKind::Directory
                &&& listing.skip(1) == child_entries(children, wanted)
            },
            None => directory_listing(directory, children, wanted) == child_entries(
                children,
                wanted,
            ),
        },
{
    let listing = directory_listing(directory, children, wanted);
    match path_parent(directory) {
        Some(parent) => {
            assert(listing.skip(1) =~= child_entries(children, wanted));
        },
        None => {
            assert(listing =~= child_entries(children, wanted));
        },
    }
}

/// A directory with no parent and no children has an empty listing, and
/// entering it ends the picking with `EmptySelection`: no choice is asked for.
pub proof fn lemma_nothing_to_list(directory: Seq<char>, wanted: Seq<char>)
    requires
        path_parent(directory) is None,
    ensures
        directory_listing(directory, Seq::empty(), wanted).len() == 0,
        step(
            initial(directory),
            EventView::Scanned(ScanView::Entries(Seq::empty())),
            wanted,
        ) == StateView::Done(OutcomeView::Failed(PickError::EmptySelection)),
{
    assert(child_entries(Seq::empty(), wanted) =~= Seq::<EntryView>::empty());
    assert(directory_listing(directory, Seq::empty(), wanted) =~= Seq::<EntryView>::empty());
}

/// A well-formed picker never asks for a choice among nothing.
pub proof fn lemma_choice_is_never_empty(state: StateView, wanted: Seq<char>)
    requires
        well_formed(state, wanted),
    ensures
        pending(state) matches RequestView::Choose(labels) ==> labels.len() > 0,
{
}

/// Going up from a directory leaves the picker exactly where starting at the
/// parent would have put it, so whatever is scanned next gives the same
/// listing either way.
pub proof fn lemma_going_up_is_starting_at_parent(
    directory: Seq<char>,
    children: Seq<ChildView>,
    wanted: Seq<char>,
    next: EventView,
)
    requires
        path_parent(directory) is Some,
    ensures
        ({
            let parent = path_parent(directory).unwrap();
            let listing = directory_listing(directory, children, wanted);
            let shown = step(
                initial(directory),
                EventView::Scanned(ScanView::Entries(children)),
                wanted,
            );
            let up = step(shown, EventView::Answered(Answer::Chosen(0)), wanted);
            &&& shown == StateView::Browsing { directory, listing }
            &&& up == initial(parent)
            &&& step(up, next, wanted) == step(initial(parent), next, wanted)
        }),
{
    lemma_way_up_comes_first(directory, children, wanted);
}

/// Selecting a file ends the picking with exactly the path of that file, and
/// nothing that is reported afterwards changes it.
pub proof fn lemma_selecting_a_file_is_final(
    directory: Seq<char>,
    listing: Seq<EntryView>,
    index: usize,
    wanted: Seq<char>,
    later: EventView,
)
    requires
        index < listing.len(),
        listing[index as int].kind == EntryKind::File,
    ensures
        ({
            let chosen = step(
                StateView::Browsing { directory, listing },
                EventView::Answered(Answer::Chosen(index)),
                wanted,
            );
            &&& chosen == StateView::Done(OutcomeView::Selected(listing[index as int].target))
            &&& step(chosen, later, wanted) == chosen
        }),
{
}

/// A listing does not outlive the answer to it: whatever the answer, the
/// picker is left entering a directory or has ended, and a listing is shown
/// again only once a directory has been scanned afresh.
pub proof fn lemma_listing_is_discarded(
    directory: Seq<char>,
    listing: Seq<EntryView>,
    answer: Answer,
    wanted: Seq<char>,
)
    ensures
        !(step(
            StateView::Browsing { directory, listing },
            EventView::Answered(answer),
            wanted,
        ) is Browsing),
{
}

/// Selecting a directory enters it: the picker goes on as if it had been
/// started there.
pub proof fn lemma_selecting_a_directory_enters_it(
    directory: Seq<char>,
    listing: Seq<EntryView>,
    index: usize,
    wanted: Seq<char>,
)
    requires
        index < listing.len(),
        listing[index as int].kind == EntryKind::Directory,
    ensures
        step(
            StateView::Browsing { directory, listing },
            EventView::Answered(Answer::Chosen(index)),
            wanted,
        ) == initial(listing[index as int].target),
{
}

/// Two enumerations that hold the same children, in whatever order, give
/// listings that hold the same entries.
pub proof fn lemma_same_children_same_entries(
    directory: Seq<char>,
    first: Seq<ChildView>,
    second: Seq<ChildView>,
    wanted: Seq<char>,
)
    requires
        first.to_set() == second.to_set(),
    ensures
        directory_listing(directory, first, wanted).to_set() == directory_listing(
            directory,
            second,
            wanted,
        ).to_set(),
{
    let head = parent_entries(path_parent(directory));
    let a = directory_listing(directory, first, wanted);
    let b = directory_listing(directory, second, wanted);
    assert forall|entry: EntryView| a.contains(entry) == b.contains(entry) by {
        lemma_child_entries_contains(first, wanted, entry);
        lemma_child_entries_contains(second, wanted, entry);
        vstd::seq_lib::lemma_seq_concat_contains_all_elements(
            head,
            child_entries(first, wanted),
            entry,
        );
        vstd::seq_lib::lemma_seq_concat_contains_all_elements(
            head,
            child_entries(second, wanted),
            entry,
        );
        if child_entries(first, wanted).contains(entry) {
            let i = choose|i: int|
                0 <= i < first.len() && offer(#[trigger] first[i], wanted) == Some(entry);
            assert(first.contains(first[i]));
            assert(first.to_set().contains(first[i]));
            assert(second.contains(first[i]));
            let j = choose|j: int| 0 <= j < second.len() && second[j] == first[i];
            assert(offer(second[j], wanted) == Some(entry));
        }
        if child_entries(second, wanted).contains(entry) {
            let i = choose|i: int|
                0 <= i < second.len() && offer(#[trigger] second[i], wanted) == Some(entry);
            assert(second.contains(second[i]));
            assert(second.to_set().contains(second[i]));
            assert(first.contains(second[i]));
            let j = choose|j: int| 0 <= j < first.len() && first[j] == second[i];
            assert(offer(first[j], wanted) == Some(entry));
        }
    }
    assert(a.to_set() =~= b.to_set());
}

/// Whether `path` is the path of a file among `children` that has the wanted
/// extension.
pub open spec fn is_wanted_file_of(
    path: Seq<char>,
    children: Seq<ChildView>,
    wanted: Seq<char>,
) -> bool {
    &&& spec_is_extension(path_extension(path), wanted)
    &&& exists|i: int|
        0 <= i < children.len() && #[trigger] children[i] == (ChildView {
            path: Some(path),
            is_dir: false,
        })
}

/// Whether an event reports `path` as a file with the wanted extension.
pub open spec fn reports_wanted_file(event: EventView, path: Seq<char>, wanted: Seq<char>) -> bool {
    match event {
        EventView::Scanned(ScanView::Entries(children)) => is_wanted_file_of(
            path,
            children,
            wanted,
        ),
        _ => false,
    }
}

/// Whether some event of a run reports `path` as a file with the wanted
/// extension.
pub open spec fn was_enumerated(
    path: Seq<char>,
    events: Seq<EventView>,
    wanted: Seq<char>,
) -> bool {
    exists|k: int|
        0 <= k < events.len() && reports_wanted_file(#[trigger] events[k], path, wanted)
}

/// Every file in the listing of a directory is one of the enumerated
/// children: a file, with the wanted extension, under the very path with
/// which it was enumerated.
pub proof fn lemma_listed_files_were_enumerated(
    directory: Seq<char>,
    children: Seq<ChildView>,
    wanted: Seq<char>,
    index: int,
)
    requires
        0 <= index < directory_listing(directory, children, wanted).len(),
        directory_listing(directory, children, wanted)[index].kind == EntryKind::File,
    ensures
        is_wanted_file_of(
            directory_listing(directory, children, wanted)[index].target,
            children,
            wanted,
        ),
{
    let listing = directory_listing(directory, children, wanted);
    let entry = listing[index];
    let head = parent_entries(path_parent(directory));
    assert(index >= head.len());
    let k = index - head.len();
    assert(child_entries(children, wanted)[k] == entry);
    assert(child_entries(children, wanted).contains(entry));
    lemma_child_entries_contains(children, wanted, entry);
    let i = choose|i: int|
        0 <= i < children.len() && offer(#[trigger] children[i], wanted) == Some(entry);
    assert(children[i] == (ChildView { path: Some(entry.target), is_dir: false }));
}

/// What a run of events has vouched for in the state it led to: the files on
/// show, and the file that was selected, were all reported by the run.
spec fn vouched(state: StateView, events: Seq<EventView>, wanted: Seq<char>) -> bool {
    match state {
        StateView::Entering { directory } => true,
        StateView::Browsing { directory, listing } => forall|j: int|
            0 <= j < listing.len() && (#[trigger] listing[j]).kind == EntryKind::File
                ==> was_enumerated(listing[j].target, events, wanted),
        StateView::Done(outcome) => match outcome {
            OutcomeView::Selected(path) => was_enumerated(path, events, wanted),
            _ => true,
        },
    }
}

/// What a run has reported stays reported when the run goes on.
proof fn lemma_enumerated_stays_enumerated(
    path: Seq<char>,
    events: Seq<EventView>,
    wanted: Seq<char>,
)
    requires
        events.len() > 0,
        was_enumerated(path, events.drop_last(), wanted),
    ensures
        was_enumerated(path, events, wanted),
{
    let k = choose|k: int|
        0 <= k < events.drop_last().len() && reports_wanted_file(
            #[trigger] events.drop_last()[k],
            path,
            wanted,
        );
    assert(events[k] == events.drop_last()[k]);
}

/// Every run from the start leads to a state that it has vouched for.
proof fn lemma_run_is_vouched(directory: Seq<char>, events: Seq<EventView>, wanted: Seq<char>)
    ensures
        vouched(run(initial(directory), events, wanted), events, wanted),
    decreases events.len(),
{
    if events.len() > 0 {
        let before = events.drop_last();
        let event = events.last();
        let state = run(initial(directory), before, wanted);
        let next = step(state, event, wanted);
        lemma_run_is_vouched(directory, before, wanted);
        assert(run(initial(directory), events, wanted) == next);
        match state {
            StateView::Entering { directory: entered } => match event {
                EventView::Scanned(scan) => match scan {
                    ScanView::Entries(children) => {
                        let listing = directory_listing(entered, children, wanted);
                        assert forall|j: int|
                            0 <= j < listing.len() && (#[trigger] listing[j]).kind
                                == EntryKind::File implies was_enumerated(
                            listing[j].target,
                            events,
                            wanted,
                        ) by {
                            lemma_listed_files_were_enumerated(entered, children, wanted, j);
                            assert(reports_wanted_file(
                                events[events.len() - 1],
                                listing[j].target,
                                wanted,
                            ));
                        }
                    },
                    ScanView::NotADirectory => {
                        let listing = directory_listing(entered, Seq::empty(), wanted);
                        assert(child_entries(Seq::empty(), wanted) =~= Seq::<EntryView>::empty());
                        assert forall|j: int|
                            0 <= j < listing.len() implies (#[trigger] listing[j]).kind
                            == EntryKind::Directory by {}
                    },
                    ScanView::Unreadable => {},
                },
                EventView::Answered(_) => {},
            },
            StateView::Browsing { directory: browsed, listing } => {
                assert forall|j: int|
                    0 <= j < listing.len() && (#[trigger] listing[j]).kind
                        == EntryKind::File implies was_enumerated(
                    listing[j].target,
                    events,
                    wanted,
                ) by {
                    lemma_enumerated_stays_enumerated(listing[j].target, events, wanted);
                }
                match event {
                    EventView::Answered(answer) => match answer {
                        Answer::Chosen(index) => {
                            if index < listing.len() {
                                let entry = listing[index as int];
                                if entry.kind == EntryKind::File {
                                    assert(was_enumerated(entry.target, events, wanted));
                                }
                            }
                        },
                        _ => {},
                    },
                    EventView::Scanned(_) => {},
                }
            },
            StateView::Done(outcome) => match outcome {
                OutcomeView::Selected(path) => {
                    lemma_enumerated_stays_enumerated(path, events, wanted);
                },
                _ => {},
            },
        }
    }
}

/// However picking goes, it ends with a path only if that path was reported,
/// somewhere along the way, as a file with the wanted extension: the picker
/// makes up no path and changes none.
pub proof fn lemma_selected_file_was_enumerated(
    directory: Seq<char>,
    events: Seq<EventView>,
    wanted: Seq<char>,
    path: Seq<char>,
)
    requires
        run(initial(directory), events, wanted) == StateView::Done(OutcomeView::Selected(path)),
    ensures
        was_enumerated(path, events, wanted),
{
    lemma_run_is_vouched(directory, events, wanted);
}

/// No run of events leads a picker to show an empty listing.
pub proof fn lemma_run_is_well_formed(
    directory: Seq<char>,
    events: Seq<EventView>,
    wanted: Seq<char>,
)
    ensures
        well_formed(run(initial(directory), events, wanted), wanted),
        pending(run(initial(directory), events, wanted)) matches RequestView::Choose(labels)
            ==> labels.len() > 0,
    decreases events.len(),
{
    if events.len() > 0 {
        lemma_run_is_well_formed(directory, events.drop_last(), wanted);
        crate::picker::lemma_step_keeps_well_formed(
            run(initial(directory), events.drop_last(), wanted),
            events.last(),
            wanted,
        );
    }
}

/// The entries that one child contributes by itself.
spec fn contribution(child: ChildView, wanted: Seq<char>) -> Seq<EntryView> {
    match offer(child, wanted) {
        Some(entry) => seq![entry],
        None => Seq::empty(),
    }
}

/// A single child contributes its own entry, or nothing.
proof fn lemma_single_child(child: ChildView, wanted: Seq<char>)
    ensures
        child_entries(seq![child], wanted) == contribution(child, wanted),
{
    Seq::lemma_filter_map_singleton(child, offer_for(wanted));
}

/// Children that are reordered contribute entries that are reordered.
proof fn lemma_children_permuted(first: Seq<ChildView>, second: Seq<ChildView>, wanted: Seq<char>)
    requires
        first.to_multiset() == second.to_multiset(),
    ensures
        child_entries(first, wanted).to_multiset() == child_entries(second, wanted).to_multiset(),
    decreases first.len(),
{
    broadcast use vstd::seq_lib::group_to_multiset_ensures;

    if first.len() == 0 {
        vstd::seq_lib::to_multiset_len(first);
        vstd::seq_lib::to_multiset_len(second);
        assert(first =~= second);
    } else {
        let x = first.last();
        let rest = first.drop_last();
        assert(first =~= rest.push(x));
        assert(first.to_multiset().count(x) > 0);
        assert(second.contains(x));
        let j = choose|j: int| 0 <= j < second.len() && second[j] == x;
        let before = second.subrange(0, j);
        let after = second.subrange(j + 1, second.len() as int);
        let others = second.remove(j);
        assert(others == before + after);
        assert(second =~= before + seq![x] + after);
        assert(rest.to_multiset() =~= first.to_multiset().remove(x));
        assert(others.to_multiset() =~= second.to_multiset().remove(x));
        lemma_children_permuted(rest, others, wanted);

        let mine = contribution(x, wanted);
        lemma_single_child(x, wanted);
        lemma_child_entries_concat(rest, seq![x], wanted);
        lemma_child_entries_concat(before, seq![x], wanted);
        lemma_child_entries_concat(before + seq![x], after, wanted);
        lemma_child_entries_concat(before, after, wanted);
        let b = child_entries(before, wanted);
        let a = child_entries(after, wanted);
        assert(child_entries(first, wanted) == child_entries(rest, wanted) + mine);
        assert(child_entries(second, wanted) == b + mine + a);
        assert(child_entries(others, wanted) == b + a);
        vstd::seq_lib::lemma_multiset_commutative(child_entries(rest, wanted), mine);
        vstd::seq_lib::lemma_multiset_commutative(b, mine);
        vstd::seq_lib::lemma_multiset_commutative(b + mine, a);
        vstd::seq_lib::lemma_multiset_commutative(b, a);
        assert(child_entries(second, wanted).to_multiset() =~= child_entries(
            others,
            wanted,
        ).to_multiset().add(mine.to_multiset()));
    }
}

/// Two enumerations that are reorderings of each other give listings that are
/// reorderings of each other: each entry comes as often in the one as in the
/// other.
pub proof fn lemma_reordered_children_reordered_entries(
    directory: Seq<char>,
    first: Seq<ChildView>,
    second: Seq<ChildView>,
    wanted: Seq<char>,
)
    requires
        first.to_multiset() == second.to_multiset(),
    ensures
        directory_listing(directory, first, wanted).to_multiset() == directory_listing(
            directory,
            second,
            wanted,
        ).to_multiset(),
{
    let head = parent_entries(path_parent(directory));
    lemma_children_permuted(first, second, wanted);
    vstd::seq_lib::lemma_multiset_commutative(head, child_entries(first, wanted));
    vstd::seq_lib::lemma_multiset_commutative(head, child_entries(second, wanted));
}

} // verus!
