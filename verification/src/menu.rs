//! The menu of the tool, and the choice of a main page.
//!
//! The whole command surface is one menu of four actions. One of them, setting
//! the main page, asks for the number of a page until the number names a page
//! that the address has declared.

use vstd::prelude::*;

verus! {

/// What the tool can be asked to do, in menu order.
#[derive(Clone, Copy, Debug, PartialEq, Eq, Structural)]
pub enum Action {
    /// Store a page in a transaction and declare it.
    PublishPage,
    /// Store a page in a transaction and declare it under a name.
    PublishPackage,
    /// Make one of the declared pages the main page.
    SetMainPage,
    /// Compile the contracts and deploy them.
    DeployContracts,
}

/// The number of actions on the menu.
pub const ACTIONS: usize = 4;

impl Action {
    /// The action at a zero-based position of the menu, if there is one.
    pub open spec fn spec_at(index: int) -> Option<Action> {
        if index == 0 {
            Some(Action::PublishPage)
        } else if index == 1 {
            Some(Action::PublishPackage)
        } else if index == 2 {
            Some(Action::SetMainPage)
        } else if index == 3 {
            Some(Action::DeployContracts)
        } else {
            None
        }
    }

    /// The zero-based position of an action on the menu.
    pub open spec fn spec_index(self) -> int {
        match self {
            Action::PublishPage => 0,
            Action::PublishPackage => 1,
            Action::SetMainPage => 2,
            Action::DeployContracts => 3,
        }
    }

    /// The text of an action on the menu.
    pub open spec fn spec_label(self) -> Seq<char> {
        match self {
            Action::PublishPage => "Publish a page"@,
            Action::PublishPackage => "Publish a package"@,
            Action::SetMainPage => "Set main page"@,
            Action::DeployContracts => "Compile and deploy contracts"@,
        }
    }

    /// Resolves a selected menu position. A position beyond the menu selects
    /// nothing.
    pub fn at(index: usize) -> (action: Option<Action>)
        ensures
            action == Action::spec_at(index as int),
            action is Some <==> index < ACTIONS,
    {
        match index {
            0 => Some(Action::PublishPage),
            1 => Some(Action::PublishPackage),
            2 => Some(Action::SetMainPage),
            3 => Some(Action::DeployContracts),
            _ => None,
        }
    }

    /// The position at which the action stands on the menu.
    pub fn index(self) -> (index: usize)
        ensures
            index == self.spec_index(),
            index < ACTIONS,
            Action::spec_at(index as int) == Some(self),
    {
        match self {
            Action::PublishPage => 0,
            Action::PublishPackage => 1,
            Action::SetMainPage => 2,
            Action::DeployContracts => 3,
        }
    }

    /// The text shown for the action.
    pub fn label(self) -> (label: &'static str)
        ensures
            label@ == self.spec_label(),
    {
        match self {
            Action::PublishPage => "Publish a page",
            Action::PublishPackage => "Publish a package",
            Action::SetMainPage => "Set main page",
            Action::DeployContracts => "Compile and deploy contracts",
        }
    }
}

/// The labels of the menu, in order.
pub open spec fn menu_labels() -> Seq<Seq<char>> {
    Seq::new(ACTIONS as nat, |i: int| Action::spec_at(i).unwrap().spec_label())
}

/// The menu to show: one label for each action, the label at a position being
/// that of the action that the position selects.
pub fn menu() -> (labels: Vec<&'static str>)
    ensures
        labels.len() == ACTIONS,
        forall|i: int| 0 <= i < ACTIONS ==> labels[i]@ == #[trigger] menu_labels()[i],
{
    let mut labels: Vec<&'static str> = Vec::new();
    let mut i: usize = 0;
    while i < ACTIONS
        invariant
            i <= ACTIONS,
            labels.len() == i,
            forall|j: int| 0 <= j < i ==> labels[j]@ == #[trigger] menu_labels()[j],
        decreases ACTIONS - i,
    {
        match Action::at(i) {
            Some(action) => labels.push(action.label()),
            None => {},
        }
        i += 1;
    }
    labels
}

/// Every action stands at the position that selects it, and every position
/// on the menu selects the action that stands there.
pub proof fn lemma_menu_positions(action: Action, index: int)
    ensures
        Action::spec_at(action.spec_index()) == Some(action),
        0 <= action.spec_index() < ACTIONS,
        Action::spec_at(index) matches Some(a) ==> a.spec_index() == index,
        Action::spec_at(index) is Some <==> 0 <= index < ACTIONS,
{
}

/// What to do next about the main page.
#[derive(Clone, Copy, Debug, PartialEq, Eq, Structural)]
pub enum MainPageStep {
    /// The address has declared no page: there is none to make the main page.
    NoPages,
    /// Ask for the number of a page.
    Ask,
    /// The number names no declared page: say that `highest` is the highest
    /// that does, and ask again.
    Retry { highest: u128 },
    /// Make the page with this number the main page.
    Apply(u128),
}

/// How setting the main page starts, for an address that has declared
/// `declared` pages.
pub open spec fn spec_begin_main_page(declared: u128) -> MainPageStep {
    if declared == 0 {
        MainPageStep::NoPages
    } else {
        MainPageStep::Ask
    }
}

/// How setting the main page goes on once `typed` has been given. The pages
/// are numbered from zero, so a number names a page when it is below the
/// count of pages declared.
pub open spec fn spec_answer_main_page(declared: u128, typed: u128) -> MainPageStep {
    if declared == 0 {
        MainPageStep::NoPages
    } else if typed < declared {
        MainPageStep::Apply(typed)
    } else {
        MainPageStep::Retry { highest: (declared - 1) as u128 }
    }
}

/// Starts setting the main page: asks for a number unless no page is declared.
pub fn begin_main_page(declared: u128) -> (step: MainPageStep)
    ensures
        step == spec_begin_main_page(declared),
{
    if declared == 0 {
        MainPageStep::NoPages
    } else {
        MainPageStep::Ask
    }
}

/// Judges the number that was typed: it is taken if it names a declared page,
/// and asked for again otherwise.
pub fn answer_main_page(declared: u128, typed: u128) -> (step: MainPageStep)
    ensures
        step == spec_answer_main_page(declared, typed),
{
    if declared == 0 {
        MainPageStep::NoPages
    } else if typed < declared {
        MainPageStep::Apply(typed)
    } else {
        MainPageStep::Retry { highest: declared - 1 }
    }
}

/// A page is set only if it has been declared, and every declared page can be
/// set.
pub proof fn lemma_only_declared_pages_are_set(declared: u128, typed: u128)
    ensures
        spec_answer_main_page(declared, typed) is Apply <==> typed < declared,
        spec_answer_main_page(declared, typed) matches MainPageStep::Apply(page) ==> page == typed,
        spec_answer_main_page(declared, typed) matches MainPageStep::Retry { highest } ==> highest
            < declared <= typed,
{
}

} // verus!
