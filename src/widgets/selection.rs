//! Moving the highlighted row of a list: one row at a time, without wrapping
//! around.
use vstd::prelude::*;

verus! {

/// The row highlighted after moving down in a list of `len` rows: the first
/// row when none was highlighted, else the next one, staying on the last.
pub open spec fn next_selection(selected: Option<usize>, len: nat) -> Option<usize> {
    if len == 0 {
        None
    } else {
        match selected {
            None => Some(0usize),
            Some(i) => Some(
                if i + 1 < len {
                    (i + 1) as usize
                } else {
                    (len - 1) as usize
                },
            ),
        }
    }
}

/// The row highlighted after moving up in a list of `len` rows: the last row
/// when none was highlighted, else the previous one, staying on the first.
pub open spec fn previous_selection(selected: Option<usize>, len: nat) -> Option<usize> {
    if len == 0 {
        None
    } else {
        match selected {
            None => Some((len - 1) as usize),
            Some(i) => Some(
                if i == 0 {
                    0usize
                } else if i - 1 < len {
                    (i - 1) as usize
                } else {
                    (len - 1) as usize
                },
            ),
        }
    }
}

pub fn select_next(selected: Option<usize>, len: usize) -> (r: Option<usize>)
    ensures
        r == next_selection(selected, len as nat),
{
    if len == 0 {
        return None;
    }
    match selected {
        None => Some(0),
        Some(i) => {
            if i < len - 1 {
                Some(i + 1)
            } else {
                Some(len - 1)
            }
        },
    }
}

pub fn select_previous(selected: Option<usize>, len: usize) -> (r: Option<usize>)
    ensures
        r == previous_selection(selected, len as nat),
{
    if len == 0 {
        return None;
    }
    match selected {
        None => Some(len - 1),
        Some(i) => {
            if i == 0 {
                Some(0)
            } else if i - 1 < len {
                Some(i - 1)
            } else {
                Some(len - 1)
            }
        },
    }
}

} // verus!
