//! The guided connection dialog: choose a user of the chosen database, type a
//! database name, confirm. Each step moves on only once its field is filled;
//! cancelling from any step puts the whole dialog back at rest.
use vstd::prelude::*;
use crate::catalog::ConnectionArgs;
use crate::text::{trim, trimmed};
use crate::widgets::confirmation_toggle::{ConfirmationOption, ConfirmationToggle};
use crate::widgets::database_name_input::DatabaseNameInput;
use crate::widgets::user_list::{highlighted, StatefulUserList};

verus! {

#[derive(Clone, Copy, Debug, PartialEq, Eq, Structural)]
pub enum Step {
    UserSelection,
    DatabaseInput,
    Confirmation,
}

/// The dialog's state. `selected_entry` names the chosen database by its
/// name, which identifies it in the listing.
pub struct ConnectDialog {
    pub user_list: StatefulUserList,
    pub database_name_input: DatabaseNameInput,
    pub confirmation_toggle: ConfirmationToggle,
    pub ready_to_connect: Option<bool>,
    pub selected_entry: Option<String>,
    pub db_name: String,
    pub db_user: String,
    pub current_step: Step,
}

/// The dialog at rest: on the first step, with nothing chosen or typed, the
/// toggle on `Yes` and no outcome.
pub open spec fn at_rest(d: ConnectDialog) -> bool {
    &&& d.current_step == Step::UserSelection
    &&& d.ready_to_connect is None
    &&& d.selected_entry is None
    &&& d.db_name@.len() == 0
    &&& d.db_user@.len() == 0
    &&& d.user_list.selected is None
    &&& d.user_list.items@.len() == 0
    &&& d.database_name_input.database_name@.len() == 0
    &&& d.database_name_input.cursor_index == 0
    &&& d.confirmation_toggle.selected == ConfirmationOption::Yes
}

/// The dialog just started for the database named `name` with the allowed
/// users `users`: at rest but for the chosen database and its users.
pub open spec fn started_for(d: ConnectDialog, name: String, users: Seq<String>) -> bool {
    &&& d.selected_entry == Some(name)
    &&& d.user_list.items@ == users
    &&& d.user_list.selected is None
    &&& d.current_step == Step::UserSelection
    &&& d.ready_to_connect is None
    &&& d.db_name@.len() == 0
    &&& d.db_user@.len() == 0
    &&& d.database_name_input.database_name@.len() == 0
    &&& d.database_name_input.cursor_index == 0
    &&& d.confirmation_toggle.selected == ConfirmationOption::Yes
}

/// What one `next_step` does to the dialog `d`, giving `e`. Choosing a user
/// needs a highlighted, non-empty user name; entering
/// the database name needs text that is not blank, which is kept trimmed, and
/// puts the toggle on `Yes`; confirming records whether the answer was `Yes`.
/// Where a step's condition fails, nothing changes.
pub open spec fn advances_to(d: ConnectDialog, e: ConnectDialog) -> bool {
    match d.current_step {
        Step::UserSelection => match highlighted(d.user_list.items@, d.user_list.selected) {
            Some(u) => if u@.len() > 0 {
                e == ConnectDialog { db_user: u, current_step: Step::DatabaseInput, ..d }
            } else {
                e == d
            },
            None => e == d,
        },
        Step::DatabaseInput => if trimmed(d.database_name_input.database_name@).len() > 0 {
            &&& e.db_name@ == trimmed(d.database_name_input.database_name@)
            &&& e == ConnectDialog {
                db_name: e.db_name,
                current_step: Step::Confirmation,
                confirmation_toggle: ConfirmationToggle { selected: ConfirmationOption::Yes },
                ..d
            }
        } else {
            e == d
        },
        Step::Confirmation => e == ConnectDialog {
            ready_to_connect: Some(d.confirmation_toggle.selected == ConfirmationOption::Yes),
            ..d
        },
    }
}

/// The fields that the current step depends on are filled: past the first
/// step a user is chosen, and at the last a database name is entered.
pub open spec fn steps_filled(d: ConnectDialog) -> bool {
    &&& d.current_step != Step::UserSelection ==> d.db_user@.len() > 0
    &&& d.current_step == Step::Confirmation ==> d.db_name@.len() > 0
}

/// The dialog never moves past a step whose field is empty: `next_step`
/// keeps the fields of every step it reaches filled.
pub proof fn lemma_next_step_keeps_steps_filled(d: ConnectDialog, e: ConnectDialog)
    requires
        steps_filled(d),
        advances_to(d, e),
    ensures
        steps_filled(e),
{
}

impl ConnectDialog {
    pub fn new() -> (r: ConnectDialog)
        ensures
            at_rest(r),
    {
        ConnectDialog {
            user_list: StatefulUserList::new(),
            database_name_input: DatabaseNameInput::new(),
            confirmation_toggle: ConfirmationToggle::new(),
            ready_to_connect: None,
            selected_entry: None,
            db_name: String::new(),
            db_user: String::new(),
            current_step: Step::UserSelection,
        }
    }

    /// Starts the dialog over for the database named `name`, whose allowed
    /// users are `users`.
    pub fn select_target(&mut self, name: String, users: Vec<String>)
        ensures
            started_for(*final(self), name, users@),
    {
        self.reset();
        self.user_list.with_items(users);
        self.selected_entry = Some(name);
    }

    /// Moves the dialog on by one step, or records the answer at the last.
    pub fn next_step(&mut self)
        ensures
            advances_to(*old(self), *final(self)),
    {
        match self.current_step {
            Step::UserSelection => self.navigate_to_db_input(),
            Step::DatabaseInput => self.navigate_to_confirmation(),
            Step::Confirmation => self.connect(),
        }
    }

    /// Takes the typed database name, trimmed, as the one to open.
    pub fn set_database_name_state(&mut self)
        ensures
            final(self).db_name@ == trimmed(old(self).database_name_input.database_name@),
            *final(self) == (ConnectDialog { db_name: final(self).db_name, ..*old(self) }),
    {
        self.db_name = trim(self.database_name_input.database_name.as_str());
    }

    /// Cancels: puts the whole dialog back at rest, from any step.
    pub fn reset(&mut self)
        ensures
            at_rest(*final(self)),
    {
        self.user_list.reset();
        self.database_name_input.reset();
        self.confirmation_toggle.reset();
        self.current_step = Step::UserSelection;
        self.ready_to_connect = None;
        self.selected_entry = None;
        self.db_name = String::new();
        self.db_user = String::new();
    }

    /// What opening the session needs, once the dialog was confirmed with
    /// `Yes` for a chosen database.
    pub fn to_connection_args(&self) -> (r: Option<ConnectionArgs>)
        ensures
            r is Some <==> self.ready_to_connect == Some(true) && self.selected_entry is Some,
            r matches Some(a) ==> Some(a.instance) == self.selected_entry && a.db_user
                == self.db_user && a.db_name == self.db_name,
    {
        if self.ready_to_connect != Some(true) {
            return None;
        }
        match &self.selected_entry {
            Some(name) => Some(
                ConnectionArgs {
                    instance: name.clone(),
                    db_name: self.db_name.clone(),
                    db_user: self.db_user.clone(),
                },
            ),
            None => None,
        }
    }

    fn navigate_to_db_input(&mut self)
        requires
            old(self).current_step == Step::UserSelection,
        ensures
            advances_to(*old(self), *final(self)),
    {
        let user = match self.user_list.selected_user() {
            Some(u) => u.clone(),
            None => {
                return;
            },
        };
        if user.as_str().is_empty() {
            return;
        }
        self.db_user = user;
        self.current_step = Step::DatabaseInput;
    }

    fn navigate_to_confirmation(&mut self)
        requires
            old(self).current_step == Step::DatabaseInput,
        ensures
            advances_to(*old(self), *final(self)),
    {
        let name = trim(self.database_name_input.database_name.as_str());
        if name.as_str().is_empty() {
            return;
        }
        self.db_name = name;
        self.current_step = Step::Confirmation;
        self.confirmation_toggle.reset();
    }

    fn connect(&mut self)
        requires
            old(self).current_step == Step::Confirmation,
        ensures
            advances_to(*old(self), *final(self)),
    {
        let yes = match self.confirmation_toggle.get_selected() {
            ConfirmationOption::Yes => true,
            ConfirmationOption::No => false,
        };
        self.ready_to_connect = Some(yes);
    }
}

} // verus!
