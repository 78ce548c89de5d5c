//! The tabs of the picker and the way from one tab to its neighbours.

use vstd::prelude::*;

verus! {

/// Going round a fixed, numbered set of values.
pub trait Navigation: Sized {
    /// The value after this one; after the last comes the first.
    fn next(&self) -> Self;

    /// The value before this one; before the first comes the last.
    fn prev(&self) -> Self;

    /// All values, in the order of their numbers.
    fn iter() -> Vec<Self>;
}

/// The tab that is shown.
#[derive(PartialEq, Eq, Structural, Clone, Copy, Debug)]
pub enum Mode {
    /// The list of bookmarks.
    Bookmarks,
    /// The list of labels.
    Labels,
    /// The table of keys.
    Usage,
}

impl Default for Mode {
    fn default() -> (mode: Mode)
        ensures
            mode == Mode::Bookmarks,
    {
        Mode::Bookmarks
    }
}

impl Mode {
    /// The number of the tab: 1, 2 or 3.
    pub open spec fn number(self) -> int {
        match self {
            Mode::Bookmarks => 1,
            Mode::Labels => 2,
            Mode::Usage => 3,
        }
    }

    /// The tab with the given number, if there is one.
    pub open spec fn numbered(number: int) -> Option<Mode> {
        if number == 1 {
            Some(Mode::Bookmarks)
        } else if number == 2 {
            Some(Mode::Labels)
        } else if number == 3 {
            Some(Mode::Usage)
        } else {
            None
        }
    }

    /// The tab after this one, going round.
    pub open spec fn following(self) -> Mode {
        match self {
            Mode::Bookmarks => Mode::Labels,
            Mode::Labels => Mode::Usage,
            Mode::Usage => Mode::Bookmarks,
        }
    }

    /// The tab before this one, going round.
    pub open spec fn preceding(self) -> Mode {
        match self {
            Mode::Bookmarks => Mode::Usage,
            Mode::Labels => Mode::Bookmarks,
            Mode::Usage => Mode::Labels,
        }
    }

    /// The name of the tab.
    pub open spec fn label(self) -> Seq<char> {
        match self {
            Mode::Bookmarks => "Bookmarks"@,
            Mode::Labels => "Labels"@,
            Mode::Usage => "Usage"@,
        }
    }

    /// The number of the tab: 1, 2 or 3.
    pub fn to_number(&self) -> (number: u32)
        ensures
            number == self.number(),
    {
        match self {
            Mode::Bookmarks => 1,
            Mode::Labels => 2,
            Mode::Usage => 3,
        }
    }

    /// The tab with the given number, if there is one.
    pub fn try_from(number: u32) -> (mode: Option<Mode>)
        ensures
            mode == Mode::numbered(number as int),
    {
        if number == 1 {
            Some(Mode::Bookmarks)
        } else if number == 2 {
            Some(Mode::Labels)
        } else if number == 3 {
            Some(Mode::Usage)
        } else {
            None
        }
    }

    /// The name of the tab.
    pub fn to_string(&self) -> (name: String)
        ensures
            name@ == self.label(),
    {
        match self {
            Mode::Bookmarks => "Bookmarks".to_string(),
            Mode::Labels => "Labels".to_string(),
            Mode::Usage => "Usage".to_string(),
        }
    }
}

impl Navigation for Mode {
    fn next(&self) -> (mode: Mode)
        ensures
            mode == self.following(),
    {
        let next: u32 = self.to_number().saturating_add(1);
        match Mode::try_from(next) {
            Some(mode) => mode,
            None => Mode::Bookmarks,
        }
    }

    fn prev(&self) -> (mode: Mode)
        ensures
            mode == self.preceding(),
    {
        let prev: u32 = self.to_number().saturating_sub(1);
        match Mode::try_from(prev) {
            Some(mode) => mode,
            None => Mode::Usage,
        }
    }

    fn iter() -> (modes: Vec<Mode>)
        ensures
            modes@ == seq![Mode::Bookmarks, Mode::Labels, Mode::Usage],
    {
        let mut modes: Vec<Mode> = Vec::new();
        let mut number: u32 = 1;
        while number <= 3
            invariant
                1 <= number <= 4,
                modes@ == Seq::new((number - 1) as nat, |i: int| Mode::numbered(i + 1)->0),
            decreases 4 - number,
        {
            match Mode::try_from(number) {
                Some(mode) => {
                    modes.push(mode);
                },
                None => {},
            }
            number += 1;
        }
        modes
    }
}

/// Every tab has a number, and the number leads back to the tab.
pub proof fn lemma_number_names_the_tab(mode: Mode)
    ensures
        Mode::numbered(mode.number()) == Some(mode),
{
}

/// A number names a tab exactly when it is 1, 2 or 3, and the tab then has
/// that number.
pub proof fn lemma_tab_of_number(number: int)
    ensures
        Mode::numbered(number) is Some <==> 1 <= number <= 3,
        Mode::numbered(number) matches Some(mode) ==> mode.number() == number,
{
}

/// Going on and back, or back and on, ends where it began; going on three
/// times goes once round.
pub proof fn lemma_round_trip(mode: Mode)
    ensures
        mode.following().preceding() == mode,
        mode.preceding().following() == mode,
        mode.following().following().following() == mode,
{
}

/// Going on raises the number by one, and from the last tab leads to the
/// first; going back lowers it by one, and from the first leads to the last.
pub proof fn lemma_neighbours_by_number(mode: Mode)
    ensures
        mode.following().number() == if mode.number() == 3 {
            1
        } else {
            mode.number() + 1
        },
        mode.preceding().number() == if mode.number() == 1 {
            3
        } else {
            mode.number() - 1
        },
{
}

} // verus!
