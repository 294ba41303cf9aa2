//! The file picker: browsing directories until a file is chosen.
//!
//! The picker reads no directory and asks no question itself. It says what it
//! needs next, a scan of a directory or a choice from a listing, and is told
//! what came of it. Entering a directory, going up and going down are all the
//! same step: the chosen directory is entered and scanned afresh. Choosing a
//! file is the only way to end with a path.

use vstd::prelude::*;
use crate::error::PickError;
use crate::listing::{
    build_listing, directory_listing, labels_of, Child, ChildView, EntryKind, EntryView, Listing,
};

verus! {

/// What enumerating a directory came to.
#[derive(Clone, Debug, PartialEq, Eq)]
pub enum Scan {
    /// The children of the directory, in enumeration order.
    Entries(Vec<Child>),
    /// The path is not a directory: it has no children to offer.
    NotADirectory,
    /// The directory could not be read.
    Unreadable,
}

/// The mathematical value of a [`Scan`].
pub enum ScanView {
    Entries(Seq<ChildView>),
    NotADirectory,
    Unreadable,
}

impl View for Scan {
    type V = ScanView;

    open spec fn view(&self) -> ScanView {
        match self {
            Scan::Entries(children) => ScanView::Entries(children.deep_view()),
            Scan::NotADirectory => ScanView::NotADirectory,
            Scan::Unreadable => ScanView::Unreadable,
        }
    }
}

/// What asking the user to choose came to.
#[derive(Clone, Copy, Debug, PartialEq, Eq, Structural)]
pub enum Answer {
    /// The zero-based index of the chosen entry.
    Chosen(usize),
    /// The user gave up choosing.
    Cancelled,
    /// No choice could be obtained.
    Failed,
}

/// What the outside world reports back to the picker.
#[derive(Clone, Debug, PartialEq, Eq)]
pub enum Event {
    /// The directory last asked for has been scanned.
    Scanned(Scan),
    /// The listing last shown has been answered.
    Answered(Answer),
}

/// The mathematical value of an [`Event`].
pub enum EventView {
    Scanned(ScanView),
    Answered(Answer),
}

impl View for Event {
    type V = EventView;

    open spec fn view(&self) -> EventView {
        match self {
            Event::Scanned(scan) => EventView::Scanned(scan@),
            Event::Answered(answer) => EventView::Answered(*answer),
        }
    }
}

/// How picking ended.
#[derive(Clone, Debug, PartialEq, Eq)]
pub enum Outcome {
    /// A file was chosen: this is its path.
    Selected(String),
    /// The user gave up.
    Cancelled,
    /// Picking failed.
    Failed(PickError),
}

/// The mathematical value of an [`Outcome`].
pub enum OutcomeView {
    Selected(Seq<char>),
    Cancelled,
    Failed(PickError),
}

impl View for Outcome {
    type V = OutcomeView;

    open spec fn view(&self) -> OutcomeView {
        match self {
            Outcome::Selected(path) => OutcomeView::Selected(path@),
            Outcome::Cancelled => OutcomeView::Cancelled,
            Outcome::Failed(error) => OutcomeView::Failed(*error),
        }
    }
}

/// Where the picker stands.
#[derive(Clone, Debug, PartialEq, Eq)]
pub enum State {
    /// A directory has been entered and its scan is awaited.
    Entering { directory: String },
    /// The listing of a directory is on show and a choice is awaited.
    Browsing { directory: String, listing: Listing },
    /// Picking is over.
    Done(Outcome),
}

/// The mathematical value of a [`State`].
pub enum StateView {
    Entering { directory: Seq<char> },
    Browsing { directory: Seq<char>, listing: Seq<EntryView> },
    Done(OutcomeView),
}

impl View for State {
    type V = StateView;

    open spec fn view(&self) -> StateView {
        match self {
            State::Entering { directory } => StateView::Entering { directory: directory@ },
            State::Browsing { directory, listing } => StateView::Browsing {
                directory: directory@,
                listing: listing@,
            },
            State::Done(outcome) => StateView::Done(outcome@),
        }
    }
}

/// What the picker needs from the outside world next.
#[derive(Clone, Debug, PartialEq, Eq)]
pub enum Request {
    /// Enumerate the children of this directory and report the scan.
    Scan(String),
    /// Show these labels as a single choice and report the answer.
    Choose(Vec<String>),
    /// Nothing more: picking ended this way.
    Finish(Outcome),
}

/// The mathematical value of a [`Request`].
pub enum RequestView {
    Scan(Seq<char>),
    Choose(Seq<Seq<char>>),
    Finish(OutcomeView),
}

impl View for Request {
    type V = RequestView;

    open spec fn view(&self) -> RequestView {
        match self {
            Request::Scan(directory) => RequestView::Scan(directory@),
            Request::Choose(labels) => RequestView::Choose(labels.deep_view()),
            Request::Finish(outcome) => RequestView::Finish(outcome@),
        }
    }
}

/// The extension of the files that are published as pages.
pub open spec fn page_extension() -> Seq<char> {
    "html"@
}

/// The state in which picking starts at `directory`.
pub open spec fn initial(directory: Seq<char>) -> StateView {
    StateView::Entering { directory }
}

/// The children that a scan offers, where the directory could be read.
///
/// A path that is no directory has no children, and is still shown with its
/// way up.
pub open spec fn scanned_children(scan: ScanView) -> Option<Seq<ChildView>> {
    match scan {
        ScanView::Entries(children) => Some(children),
        ScanView::NotADirectory => Some(Seq::empty()),
        ScanView::Unreadable => None,
    }
}

/// The state in which `listing` is put before the user.
///
/// An empty listing is never shown: there is nothing to choose, and picking
/// fails instead.
pub open spec fn show(directory: Seq<char>, listing: Seq<EntryView>) -> StateView {
    if listing.len() == 0 {
        StateView::Done(OutcomeView::Failed(PickError::EmptySelection))
    } else {
        StateView::Browsing { directory, listing }
    }
}

/// The state after the entered `directory` has been scanned.
pub open spec fn after_scan(directory: Seq<char>, scan: ScanView, wanted: Seq<char>) -> StateView {
    match scanned_children(scan) {
        Some(children) => show(directory, directory_listing(directory, children, wanted)),
        None => StateView::Done(OutcomeView::Failed(PickError::Io)),
    }
}

/// The state after selecting `entry`: a directory is entered, a file ends the
/// picking with its path.
pub open spec fn select(entry: EntryView) -> StateView {
    match entry.kind {
        EntryKind::Directory => StateView::Entering { directory: entry.target },
        EntryKind::File => StateView::Done(OutcomeView::Selected(entry.target)),
    }
}

/// The state after the shown `listing` has been answered.
pub open spec fn after_answer(listing: Seq<EntryView>, answer: Answer) -> StateView {
    match answer {
        Answer::Chosen(index) => if index < listing.len() {
            select(listing[index as int])
        } else {
            StateView::Done(OutcomeView::Failed(PickError::InvalidSelection))
        },
        Answer::Cancelled => StateView::Done(OutcomeView::Cancelled),
        Answer::Failed => StateView::Done(OutcomeView::Failed(PickError::Prompt)),
    }
}

/// The transition of the picker.
///
/// A scan answers an entered directory and an answer answers a shown listing.
/// Any other event changes nothing; in particular nothing follows the end.
pub open spec fn step(state: StateView, event: EventView, wanted: Seq<char>) -> StateView {
    match (state, event) {
        (StateView::Entering { directory }, EventView::Scanned(scan)) => after_scan(
            directory,
            scan,
            wanted,
        ),
        (StateView::Browsing { directory, listing }, EventView::Answered(answer)) => after_answer(
            listing,
            answer,
        ),
        _ => state,
    }
}

/// The state after a run of events, the first one first.
pub open spec fn run(state: StateView, events: Seq<EventView>, wanted: Seq<char>) -> StateView
    decreases events.len(),
{
    if events.len() == 0 {
        state
    } else {
        step(run(state, events.drop_last(), wanted), events.last(), wanted)
    }
}

/// The mathematical values of a run of events.
pub open spec fn event_views(events: Seq<Event>) -> Seq<EventView> {
    Seq::new(events.len(), |i: int| events[i]@)
}

/// What a state asks of the outside world.
pub open spec fn pending(state: StateView) -> RequestView {
    match state {
        StateView::Entering { directory } => RequestView::Scan(directory),
        StateView::Browsing { directory, listing } => RequestView::Choose(labels_of(listing)),
        StateView::Done(outcome) => RequestView::Finish(outcome),
    }
}

/// Puts the freshly built listing of `directory` before the user.
pub fn show_listing(directory: String, listing: Listing) -> (state: State)
    ensures
        state@ == show(directory@, listing@),
{
    if listing.is_empty() {
        State::Done(Outcome::Failed(PickError::EmptySelection))
    } else {
        State::Browsing { directory, listing }
    }
}

/// Takes in the scan of the entered `directory`.
pub fn handle_scan(directory: String, scan: &Scan, wanted: &String) -> (state: State)
    ensures
        state@ == after_scan(directory@, scan@, wanted@),
{
    match scan {
        Scan::Entries(children) => {
            let listing = build_listing(directory.as_str(), children, wanted);
            show_listing(directory, listing)
        },
        Scan::NotADirectory => {
            let children: Vec<Child> = Vec::new();
            assert(children.deep_view() =~= Seq::<ChildView>::empty());
            let listing = build_listing(directory.as_str(), &children, wanted);
            show_listing(directory, listing)
        },
        Scan::Unreadable => State::Done(Outcome::Failed(PickError::Io)),
    }
}

/// Takes in the answer to the shown `listing`.
pub fn handle_answer(listing: &Listing, answer: Answer) -> (state: State)
    ensures
        state@ == after_answer(listing@, answer),
{
    match answer {
        Answer::Chosen(index) => match listing.entry(index) {
            Some(entry) => match entry.kind {
                EntryKind::Directory => State::Entering { directory: entry.target.clone() },
                EntryKind::File => State::Done(Outcome::Selected(entry.target.clone())),
            },
            None => State::Done(Outcome::Failed(PickError::InvalidSelection)),
        },
        Answer::Cancelled => State::Done(Outcome::Cancelled),
        Answer::Failed => State::Done(Outcome::Failed(PickError::Prompt)),
    }
}

/// The listing picker: the state of browsing together with the extension
/// that files must have to be offered.
///
/// Whatever events it is fed, a picker that shows a listing shows the listing
/// of the directory it is in, and never an empty one.
#[derive(Debug, PartialEq, Eq)]
pub struct Picker {
    wanted: String,
    state: State,
}

impl Picker {
    #[verifier::type_invariant]
    spec fn sound(self) -> bool {
        well_formed(self.state@, self.wanted@)
    }

    /// Where the picker stands.
    pub closed spec fn state(&self) -> StateView {
        self.state@
    }

    /// The extension that files must have to be offered.
    pub closed spec fn wanted(&self) -> Seq<char> {
        self.wanted@
    }

    /// Starts picking at `directory`, offering the files whose extension is
    /// `wanted` (written without its dot, and compared exactly).
    pub fn new(directory: String, wanted: String) -> (picker: Picker)
        ensures
            picker.state() == initial(directory@),
            picker.wanted() == wanted@,
    {
        Picker { wanted, state: State::Entering { directory } }
    }

    /// Starts picking a page at `directory`: the files offered are those with
    /// the extension `html`.
    pub fn for_pages(directory: String) -> (picker: Picker)
        ensures
            picker.state() == initial(directory@),
            picker.wanted() == page_extension(),
    {
        Picker::new(directory, "html".to_owned())
    }

    /// Advances the picker by one event.
    pub fn advance(self, event: Event) -> (next: Picker)
        ensures
            next.state() == step(self.state(), event@, self.wanted()),
            next.wanted() == self.wanted(),
            well_formed(next.state(), next.wanted()),
    {
        self.advance_by(&event)
    }

    /// Advances the picker by one event that the caller keeps.
    pub fn advance_by(self, event: &Event) -> (next: Picker)
        ensures
            next.state() == step(self.state(), event@, self.wanted()),
            next.wanted() == self.wanted(),
            well_formed(next.state(), next.wanted()),
    {
        proof {
            use_type_invariant(&self);
            lemma_step_keeps_well_formed(self.state@, event@, self.wanted@);
        }
        let Picker { wanted, state } = self;
        let state = match state {
            State::Entering { directory } => match event {
                Event::Scanned(scan) => handle_scan(directory, scan, &wanted),
                Event::Answered(_) => State::Entering { directory },
            },
            State::Browsing { directory, listing } => match event {
                Event::Answered(answer) => handle_answer(&listing, *answer),
                Event::Scanned(_) => State::Browsing { directory, listing },
            },
            State::Done(outcome) => State::Done(outcome),
        };
        Picker { wanted, state }
    }

    /// Advances the picker by a recorded run of events, the first one first.
    pub fn replay(self, events: &Vec<Event>) -> (next: Picker)
        ensures
            next.state() == run(self.state(), event_views(events@), self.wanted()),
            next.wanted() == self.wanted(),
            well_formed(next.state(), next.wanted()),
    {
        proof {
            use_type_invariant(&self);
        }
        let ghost start = self.state();
        let ghost wanted = self.wanted();
        let ghost all = event_views(events@);
        let mut picker = self;
        let mut i: usize = 0;
        while i < events.len()
            invariant
                i <= events.len(),
                all == event_views(events@),
                picker.wanted() == wanted,
                picker.state() == run(start, all.take(i as int), wanted),
                well_formed(picker.state(), wanted),
            decreases events.len() - i,
        {
            proof {
                assert(all.take(i + 1).drop_last() =~= all.take(i as int));
                assert(all.take(i + 1).last() == events[i as int]@);
            }
            picker = picker.advance_by(&events[i]);
            i += 1;
        }
        proof {
            assert(all.take(i as int) =~= all);
        }
        picker
    }

    /// Says what the picker needs next. It never asks for a choice among
    /// nothing.
    pub fn request(&self) -> (needed: Request)
        ensures
            needed@ == pending(self.state()),
            well_formed(self.state(), self.wanted()),
            needed@ matches RequestView::Choose(labels) ==> labels.len() > 0,
    {
        proof {
            use_type_invariant(self);
        }
        match &self.state {
            State::Entering { directory } => Request::Scan(directory.clone()),
            State::Browsing { directory, listing } => Request::Choose(listing.labels()),
            State::Done(outcome) => Request::Finish(clone_outcome(outcome)),
        }
    }

    /// How picking ended, once it has.
    pub fn outcome(&self) -> (outcome: Option<&Outcome>)
        ensures
            match outcome {
                Some(o) => self.state() == StateView::Done(o@),
                None => !(self.state() is Done),
            },
    {
        match &self.state {
            State::Done(outcome) => Some(outcome),
            _ => None,
        }
    }
}

/// Every state that shows a listing is well formed when the listing is not
/// empty and is the listing of the directory being browsed, for some
/// enumeration of its children.
pub open spec fn well_formed(state: StateView, wanted: Seq<char>) -> bool {
    match state {
        StateView::Browsing { directory, listing } => {
            &&& listing.len() > 0
            &&& exists|children: Seq<ChildView>|
                listing == #[trigger] directory_listing(directory, children, wanted)
        },
        _ => true,
    }
}

/// No event leads a well-formed state to one that is not.
pub proof fn lemma_step_keeps_well_formed(state: StateView, event: EventView, wanted: Seq<char>)
    requires
        well_formed(state, wanted),
    ensures
        well_formed(step(state, event, wanted), wanted),
{
    match state {
        StateView::Entering { directory } => match event {
            EventView::Scanned(scan) => match scanned_children(scan) {
                Some(children) => {
                    let listing = directory_listing(directory, children, wanted);
                    assert(step(state, event, wanted) == show(directory, listing));
                    if listing.len() > 0 {
                        let shown = StateView::Browsing { directory, listing };
                        assert(show(directory, listing) == shown);
                        assert(shown->Browsing_listing == directory_listing(
                            shown->Browsing_directory,
                            children,
                            wanted,
                        ));
                        assert(well_formed(shown, wanted));
                    }
                },
                None => {},
            },
            EventView::Answered(_) => {},
        },
        StateView::Browsing { directory, listing } => match event {
            EventView::Answered(_) => {},
            EventView::Scanned(_) => {},
        },
        StateView::Done(_) => {},
    }
}

/// Copies an outcome.
fn clone_outcome(outcome: &Outcome) -> (copy: Outcome)
    ensures
        copy@ == outcome@,
{
    match outcome {
        Outcome::Selected(path) => Outcome::Selected(path.clone()),
        Outcome::Cancelled => Outcome::Cancelled,
        Outcome::Failed(error) => Outcome::Failed(*error),
    }
}

} // verus!
