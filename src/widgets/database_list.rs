//! The list of databases of the last listing, one of them possibly
//! highlighted.
use vstd::prelude::*;
use crate::catalog::Database;
use crate::widgets::selection::{next_selection, previous_selection, select_next, select_previous};
use crate::widgets::user_list::highlighted;

verus! {

/// The databases of the last listing, one of them possibly highlighted.
pub struct StatefulDatabaseList {
    pub selected: Option<usize>,
    pub items: Vec<Database>,
}

impl StatefulDatabaseList {
    pub fn new() -> (r: StatefulDatabaseList)
        ensures
            r.selected is None,
            r.items@.len() == 0,
    {
        StatefulDatabaseList { selected: None, items: Vec::new() }
    }

    /// Replaces the databases with a new listing's; none is highlighted, so
    /// that no highlight carries over to a different database.
    pub fn with_items(&mut self, items: Vec<Database>)
        ensures
            final(self).selected is None,
            final(self).items@ == items@,
    {
        self.items = items;
        self.selected = None;
    }

    /// Moves the highlight down one database.
    pub fn select_next(&mut self)
        ensures
            final(self).items == old(self).items,
            final(self).selected == next_selection(old(self).selected, old(self).items@.len()),
    {
        self.selected = select_next(self.selected, self.items.len());
    }

    /// Moves the highlight up one database.
    pub fn select_previous(&mut self)
        ensures
            final(self).items == old(self).items,
            final(self).selected == previous_selection(old(self).selected, old(self).items@.len()),
    {
        self.selected = select_previous(self.selected, self.items.len());
    }

    /// The highlighted database, if any.
    pub fn selected_database(&self) -> (r: Option<&Database>)
        ensures
            match r {
                Some(d) => highlighted(self.items@, self.selected) == Some(*d),
                None => highlighted(self.items@, self.selected) is None,
            },
    {
        match self.selected {
            Some(i) => if i < self.items.len() {
                Some(&self.items[i])
            } else {
                None
            },
            None => None,
        }
    }
}

} // verus!
