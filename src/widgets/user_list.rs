//! The list of users that may log into the chosen database.
use vstd::prelude::*;
use crate::widgets::selection::{next_selection, previous_selection, select_next, select_previous};

verus! {

/// The highlighted item of `items`, if the highlight is on one.
pub open spec fn highlighted<T>(items: Seq<T>, selected: Option<usize>) -> Option<T> {
    match selected {
        Some(i) => if i < items.len() {
            Some(items[i as int])
        } else {
            None
        },
        None => None,
    }
}

/// Users, one of them possibly highlighted.
pub struct StatefulUserList {
    pub selected: Option<usize>,
    pub items: Vec<String>,
}

impl StatefulUserList {
    pub fn new() -> (r: StatefulUserList)
        ensures
            r.selected is None,
            r.items@.len() == 0,
    {
        StatefulUserList { selected: None, items: Vec::new() }
    }

    /// Empties the list.
    pub fn reset(&mut self)
        ensures
            final(self).selected is None,
            final(self).items@.len() == 0,
    {
        self.selected = None;
        self.items = Vec::new();
    }

    /// Replaces the users; none is highlighted.
    pub fn with_items(&mut self, items: Vec<String>)
        ensures
            final(self).selected is None,
            final(self).items@ == items@,
    {
        self.items = items;
        self.selected = None;
    }

    /// Moves the highlight down one user.
    pub fn select_next(&mut self)
        ensures
            final(self).items == old(self).items,
            final(self).selected == next_selection(old(self).selected, old(self).items@.len()),
    {
        self.selected = select_next(self.selected, self.items.len());
    }

    /// Moves the highlight up one user.
    pub fn select_previous(&mut self)
        ensures
            final(self).items == old(self).items,
            final(self).selected == previous_selection(old(self).selected, old(self).items@.len()),
    {
        self.selected = select_previous(self.selected, self.items.len());
    }

    /// The highlighted user, if any.
    pub fn selected_user(&self) -> (r: Option<&String>)
        ensures
            match r {
                Some(u) => highlighted(self.items@, self.selected) == Some(*u),
                None => highlighted(self.items@, self.selected) is None,
            },
    {
        match self.selected {
            Some(i) => if i < self.items.len() {
                Some(&self.items[i])
            } else {
                None
            },
            None => None,
        }
    }
}

} // verus!
