//! The yes/no choice that ends the connection dialog.
use vstd::prelude::*;

verus! {

#[derive(Clone, Copy, Debug, PartialEq, Eq, Structural)]
pub enum ConfirmationOption {
    Yes,
    No,
}

impl ConfirmationOption {
    /// Row of the option in the toggle: `Yes` first.
    pub fn to_index(&self) -> (r: usize)
        ensures
            r == match self {
                ConfirmationOption::Yes => 0usize,
                ConfirmationOption::No => 1usize,
            },
    {
        match self {
            ConfirmationOption::Yes => 0,
            ConfirmationOption::No => 1,
        }
    }

    /// The option's label.
    pub fn to_string(&self) -> (r: &'static str)
        ensures
            r@ == match self {
                ConfirmationOption::Yes => "Yes"@,
                ConfirmationOption::No => "No"@,
            },
    {
        match self {
            ConfirmationOption::Yes => "Yes",
            ConfirmationOption::No => "No",
        }
    }
}

/// The other option.
pub open spec fn flipped(o: ConfirmationOption) -> ConfirmationOption {
    match o {
        ConfirmationOption::Yes => ConfirmationOption::No,
        ConfirmationOption::No => ConfirmationOption::Yes,
    }
}

/// A choice between exactly two options. Moving up or down both flip it: it
/// is not a list to move through.
pub struct ConfirmationToggle {
    pub selected: ConfirmationOption,
}

impl ConfirmationToggle {
    /// A toggle on `Yes`.
    pub fn new() -> (r: ConfirmationToggle)
        ensures
            r.selected == ConfirmationOption::Yes,
    {
        ConfirmationToggle { selected: ConfirmationOption::Yes }
    }

    /// Puts the toggle back on `Yes`.
    pub fn reset(&mut self)
        ensures
            final(self).selected == ConfirmationOption::Yes,
    {
        self.selected = ConfirmationOption::Yes;
    }

    /// Switches to the other option.
    pub fn toggle(&mut self)
        ensures
            final(self).selected == flipped(old(self).selected),
    {
        self.selected = match self.selected {
            ConfirmationOption::Yes => ConfirmationOption::No,
            ConfirmationOption::No => ConfirmationOption::Yes,
        };
    }

    /// The chosen option.
    pub fn get_selected(&self) -> (r: &ConfirmationOption)
        ensures
            *r == self.selected,
    {
        &self.selected
    }
}

} // verus!
