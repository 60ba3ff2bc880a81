//! The interface's state and what each key does to it. Work outside the
//! process (logging in, listing databases) is not done here: a key that needs
//! it yields an [`Action`], which the caller performs before reading the next
//! key.
use vstd::prelude::*;
use crate::catalog::Database;
use crate::config::Config;
use crate::widgets::confirmation_toggle::{flipped, ConfirmationToggle};
use crate::widgets::connect_dialog::{advances_to, at_rest, started_for, ConnectDialog, Step};
use crate::widgets::database_list::StatefulDatabaseList;
use crate::widgets::database_name_input;
use crate::widgets::search_dialog;
use crate::widgets::search_dialog::SearchDialog;
use crate::widgets::selection::{next_selection, previous_selection};
use crate::widgets::user_list::{highlighted, StatefulUserList};

verus! {

/// Where keys go: to the database list, the search input or the connection
/// dialog.
#[derive(Clone, Copy, Debug, PartialEq, Eq, Structural)]
pub enum InputMode {
    Normal,
    Searching,
    Connecting,
}

/// A key press, as far as the interface tells keys apart.
#[derive(Clone, Copy, Debug, PartialEq, Eq, Structural)]
pub enum Key {
    Char(char),
    Enter,
    Esc,
    Up,
    Down,
    Left,
    Right,
    Backspace,
    Other,
}

/// Work outside the process that a key asks for.
pub enum Action {
    Nothing,
    /// Log into the broker with the configured proxy and cluster.
    Login,
    /// Log into the broker, then list the databases that match the filter and
    /// hand them to [`App::load_databases`].
    Search(String),
}

pub struct App {
    pub initiate_connection: bool,
    pub config: Config,
    pub database_list: StatefulDatabaseList,
    pub search_dialog: SearchDialog,
    pub connect_dialog: ConnectDialog,
    pub input_mode: InputMode,
    pub logged_in: bool,
    pub exit: bool,
    pub show_search: bool,
    pub show_connect: bool,
}

/// `b` is `a` with the connection dialog opened: started over for the
/// highlighted database, or at rest when none is highlighted.
pub open spec fn connect_opened(a: App, b: App) -> bool {
    &&& b == App {
        connect_dialog: b.connect_dialog,
        input_mode: InputMode::Connecting,
        show_connect: !a.show_connect,
        ..a
    }
    &&& match highlighted(a.database_list.items@, a.database_list.selected) {
        Some(db) => started_for(b.connect_dialog, db.metadata.name, db.users.allowed@),
        None => at_rest(b.connect_dialog),
    }
}

/// `b` is `a` with the search input emptied and closed.
pub open spec fn search_closed(a: App, b: App) -> bool {
    &&& search_dialog::emptied(b.search_dialog)
    &&& b == App {
        search_dialog: b.search_dialog,
        input_mode: InputMode::Normal,
        show_search: false,
        ..a
    }
}

/// `b` is `a` with the connection dialog back at rest and closed.
pub open spec fn connect_closed(a: App, b: App) -> bool {
    &&& at_rest(b.connect_dialog)
    &&& b == App {
        connect_dialog: b.connect_dialog,
        input_mode: InputMode::Normal,
        show_connect: false,
        ..a
    }
}

/// `b` is `a` with only the search input changed.
pub open spec fn search_edited(a: App, b: App) -> bool {
    b == App { search_dialog: b.search_dialog, ..a }
}

/// `b` is `a` with only the connection dialog's name input changed.
pub open spec fn name_edited(a: App, b: App) -> bool {
    b == App {
        connect_dialog: ConnectDialog {
            database_name_input: b.connect_dialog.database_name_input,
            ..a.connect_dialog
        },
        ..a
    }
}

/// `b` is `a` with the highlighted user set to `selected`.
pub open spec fn user_moved(a: App, selected: Option<usize>, b: App) -> bool {
    b == App {
        connect_dialog: ConnectDialog {
            user_list: StatefulUserList { selected, ..a.connect_dialog.user_list },
            ..a.connect_dialog
        },
        ..a
    }
}

/// `b` is `a` with the yes/no toggle flipped.
pub open spec fn toggle_flipped(a: App, b: App) -> bool {
    b == App {
        connect_dialog: ConnectDialog {
            confirmation_toggle: ConfirmationToggle {
                selected: flipped(a.connect_dialog.confirmation_toggle.selected),
            },
            ..a.connect_dialog
        },
        ..a
    }
}

/// `b` is `a` with the highlighted database set to `selected`.
pub open spec fn database_moved(a: App, selected: Option<usize>, b: App) -> bool {
    b == App { database_list: StatefulDatabaseList { selected, ..a.database_list }, ..a }
}

/// A key on the database list: `q` quits, `l` logs in, `s` opens the search
/// input, `c` the connection dialog, up and down move the highlight.
pub open spec fn normal_key(a: App, key: Key, b: App, action: Action) -> bool {
    match key {
        Key::Char(c) => if c == 'q' {
            action is Nothing && b == App { exit: true, ..a }
        } else if c == 'l' {
            action is Login && b == App { logged_in: true, ..a }
        } else if c == 's' {
            action is Nothing && b == App {
                input_mode: InputMode::Searching,
                show_search: !a.show_search,
                ..a
            }
        } else if c == 'c' {
            action is Nothing && connect_opened(a, b)
        } else {
            action is Nothing && b == a
        },
        Key::Down => action is Nothing && database_moved(
            a,
            next_selection(a.database_list.selected, a.database_list.items@.len()),
            b,
        ),
        Key::Up => action is Nothing && database_moved(
            a,
            previous_selection(a.database_list.selected, a.database_list.items@.len()),
            b,
        ),
        _ => action is Nothing && b == a,
    }
}

/// A key on the search input: escape closes it, enter logs in and searches
/// with the typed filter and closes it, the rest edit the filter.
pub open spec fn searching_key(a: App, key: Key, b: App, action: Action) -> bool {
    match key {
        Key::Esc => action is Nothing && search_closed(a, b),
        Key::Enter => action == Action::Search(a.search_dialog.search) && search_closed(
            App { logged_in: true, ..a },
            b,
        ),
        Key::Char(c) => action is Nothing && search_edited(a, b) && search_dialog::char_entered(
            a.search_dialog,
            c,
            b.search_dialog,
        ),
        Key::Backspace => action is Nothing && search_edited(a, b) && search_dialog::char_deleted(
            a.search_dialog,
            b.search_dialog,
        ),
        Key::Left => action is Nothing && search_edited(a, b) && search_dialog::cursor_moved_left(
            a.search_dialog,
            b.search_dialog,
        ),
        Key::Right => action is Nothing && search_edited(a, b)
            && search_dialog::cursor_moved_right(a.search_dialog, b.search_dialog),
        _ => action is Nothing && b == a,
    }
}

/// What enter does in the connection dialog: one `next_step`, giving `d`;
/// a `Yes` answer ends the interface to open the session, a `No` answer closes
/// the dialog.
pub open spec fn connect_entered(a: App, d: ConnectDialog, b: App) -> bool {
    &&& advances_to(a.connect_dialog, d)
    &&& match d.ready_to_connect {
        Some(true) => b == App { connect_dialog: d, initiate_connection: true, exit: true, ..a },
        Some(false) => connect_closed(a, b),
        None => b == App { connect_dialog: d, ..a },
    }
}

/// A key in the connection dialog: escape cancels, enter moves on; up and down
/// move through the users or flip the toggle; typing edits the database name.
pub open spec fn connecting_key(a: App, key: Key, b: App) -> bool {
    let step = a.connect_dialog.current_step;
    let users = a.connect_dialog.user_list;
    let input = a.connect_dialog.database_name_input;
    match key {
        Key::Esc => connect_closed(a, b),
        Key::Enter => exists|d: ConnectDialog| #[trigger] connect_entered(a, d, b),
        Key::Down => if step == Step::UserSelection {
            user_moved(a, next_selection(users.selected, users.items@.len()), b)
        } else if step == Step::Confirmation {
            toggle_flipped(a, b)
        } else {
            b == a
        },
        Key::Up => if step == Step::UserSelection {
            user_moved(a, previous_selection(users.selected, users.items@.len()), b)
        } else if step == Step::Confirmation {
            toggle_flipped(a, b)
        } else {
            b == a
        },
        Key::Char(c) => if step == Step::DatabaseInput {
            name_edited(a, b) && database_name_input::char_entered(
                input,
                c,
                b.connect_dialog.database_name_input,
            )
        } else {
            b == a
        },
        Key::Backspace => if step == Step::DatabaseInput {
            name_edited(a, b) && database_name_input::char_deleted(
                input,
                b.connect_dialog.database_name_input,
            )
        } else {
            b == a
        },
        Key::Left => if step == Step::DatabaseInput {
            name_edited(a, b) && database_name_input::cursor_moved_left(
                input,
                b.connect_dialog.database_name_input,
            )
        } else {
            b == a
        },
        Key::Right => if step == Step::DatabaseInput {
            name_edited(a, b) && database_name_input::cursor_moved_right(
                input,
                b.connect_dialog.database_name_input,
            )
        } else {
            b == a
        },
        _ => b == a,
    }
}

/// What the key `key` does to the interface `a`, giving `b` and `action`.
pub open spec fn key_handled(a: App, key: Key, b: App, action: Action) -> bool {
    match a.input_mode {
        InputMode::Normal => normal_key(a, key, b, action),
        InputMode::Searching => searching_key(a, key, b, action),
        InputMode::Connecting => action is Nothing && connecting_key(a, key, b),
    }
}


impl App {
    /// The interface at start: the list empty and on screen, nothing open.
    pub fn new(config: Config) -> (r: App)
        ensures
            r.config == config,
            r.input_mode == InputMode::Normal,
            r.database_list.items@.len() == 0,
            r.database_list.selected is None,
            search_dialog::emptied(r.search_dialog),
            at_rest(r.connect_dialog),
            !r.initiate_connection && !r.logged_in && !r.exit && !r.show_search && !r.show_connect,
    {
        App {
            initiate_connection: false,
            config,
            database_list: StatefulDatabaseList::new(),
            search_dialog: SearchDialog::new(),
            connect_dialog: ConnectDialog::new(),
            input_mode: InputMode::Normal,
            logged_in: false,
            exit: false,
            show_search: false,
            show_connect: false,
        }
    }

    /// Shows the databases of a new listing in place of the previous ones.
    pub fn load_databases(&mut self, databases: Vec<Database>)
        ensures
            *final(self) == (App { database_list: final(self).database_list, ..*old(self) }),
            final(self).database_list.items@ == databases@,
            final(self).database_list.selected is None,
    {
        self.database_list.with_items(databases);
    }

    /// Applies one key, and says what outside work it asks for.
    pub fn handle_key_event(&mut self, key: Key) -> (action: Action)
        ensures
            key_handled(*old(self), key, *final(self), action),
    {
        match self.input_mode {
            InputMode::Normal => match key {
                Key::Char('q') => {
                    self.exit();
                    Action::Nothing
                },
                Key::Char('l') => self.handle_login(),
                Key::Char('s') => {
                    self.toggle_search();
                    Action::Nothing
                },
                Key::Char('c') => {
                    self.toggle_connect();
                    Action::Nothing
                },
                Key::Down => {
                    self.handle_database_list_next();
                    Action::Nothing
                },
                Key::Up => {
                    self.handle_database_list_previous();
                    Action::Nothing
                },
                _ => Action::Nothing,
            },
            InputMode::Searching => match key {
                Key::Esc => {
                    self.exit_search();
                    Action::Nothing
                },
                Key::Enter => self.handle_search(),
                Key::Char(c) => {
                    self.search_dialog.enter_char(c);
                    Action::Nothing
                },
                Key::Backspace => {
                    self.search_dialog.delete_char();
                    Action::Nothing
                },
                Key::Left => {
                    self.search_dialog.move_cursor_left();
                    Action::Nothing
                },
                Key::Right => {
                    self.search_dialog.move_cursor_right();
                    Action::Nothing
                },
                _ => Action::Nothing,
            },
            InputMode::Connecting => {
                match key {
                    Key::Esc => self.exit_connect(),
                    Key::Enter => self.handle_connect(),
                    Key::Down => self.handle_connect_down(),
                    Key::Up => self.handle_connect_up(),
                    Key::Char(c) => self.handle_connect_char_input(c),
                    Key::Backspace => self.handle_connect_backspace(),
                    Key::Left => self.handle_connect_left(),
                    Key::Right => self.handle_connect_right(),
                    _ => {},
                }
                Action::Nothing
            },
        }
    }

    /// What opening the session needs, once the dialog was confirmed.
    pub fn connection_args(&self) -> (r: Option<crate::catalog::ConnectionArgs>)
        ensures
            r is Some <==> self.connect_dialog.ready_to_connect == Some(true)
                && self.connect_dialog.selected_entry is Some,
            r matches Some(a) ==> Some(a.instance) == self.connect_dialog.selected_entry
                && a.db_user == self.connect_dialog.db_user && a.db_name
                == self.connect_dialog.db_name,
    {
        self.connect_dialog.to_connection_args()
    }

    fn handle_login(&mut self) -> (action: Action)
        ensures
            action is Login,
            *final(self) == (App { logged_in: true, ..*old(self) }),
    {
        self.logged_in = true;
        Action::Login
    }

    fn toggle_search(&mut self)
        ensures
            *final(self) == (App {
                input_mode: InputMode::Searching,
                show_search: !old(self).show_search,
                ..*old(self)
            }),
    {
        self.input_mode = InputMode::Searching;
        self.show_search = !self.show_search;
    }

    fn handle_search(&mut self) -> (action: Action)
        ensures
            action == Action::Search(old(self).search_dialog.search),
            search_closed(App { logged_in: true, ..*old(self) }, *final(self)),
    {
        self.logged_in = true;
        let filter = self.search_dialog.search.clone();
        self.exit_search();
        Action::Search(filter)
    }

    fn exit_search(&mut self)
        ensures
            search_closed(*old(self), *final(self)),
    {
        self.search_dialog.reset();
        self.input_mode = InputMode::Normal;
        self.show_search = false;
    }

    fn toggle_connect(&mut self)
        ensures
            connect_opened(*old(self), *final(self)),
    {
        self.input_mode = InputMode::Connecting;
        self.show_connect = !self.show_connect;
        let target = match self.database_list.selected_database() {
            Some(db) => Some((db.metadata.name.clone(), clone_strings(&db.users.allowed))),
            None => None,
        };
        match target {
            Some(t) => {
                let (name, users) = t;
                self.connect_dialog.select_target(name, users);
            },
            None => self.connect_dialog.reset(),
        }
    }

    fn handle_connect(&mut self)
        requires
            old(self).input_mode == InputMode::Connecting,
        ensures
            exists|d: ConnectDialog| #[trigger] connect_entered(*old(self), d, *final(self)),
    {
        self.connect_dialog.next_step();
        let ghost d = self.connect_dialog;
        match self.connect_dialog.ready_to_connect {
            Some(true) => self.breakout_and_connect(),
            Some(false) => self.exit_connect(),
            None => {},
        }
        assert(connect_entered(*old(self), d, *self));
    }

    fn handle_connect_char_input(&mut self, to_enter: char)
        ensures
            old(self).connect_dialog.current_step == Step::DatabaseInput ==> name_edited(
                *old(self),
                *final(self),
            ) && database_name_input::char_entered(
                old(self).connect_dialog.database_name_input,
                to_enter,
                final(self).connect_dialog.database_name_input,
            ),
            old(self).connect_dialog.current_step != Step::DatabaseInput ==> *final(self)
                == *old(self),
    {
        if self.connect_dialog.current_step == Step::DatabaseInput {
            self.connect_dialog.database_name_input.enter_char(to_enter);
        }
    }

    fn handle_connect_backspace(&mut self)
        ensures
            old(self).connect_dialog.current_step == Step::DatabaseInput ==> name_edited(
                *old(self),
                *final(self),
            ) && database_name_input::char_deleted(
                old(self).connect_dialog.database_name_input,
                final(self).connect_dialog.database_name_input,
            ),
            old(self).connect_dialog.current_step != Step::DatabaseInput ==> *final(self)
                == *old(self),
    {
        if self.connect_dialog.current_step == Step::DatabaseInput {
            self.connect_dialog.database_name_input.delete_char();
        }
    }

    fn handle_connect_down(&mut self)
        ensures
            old(self).connect_dialog.current_step == Step::UserSelection ==> user_moved(
                *old(self),
                next_selection(
                    old(self).connect_dialog.user_list.selected,
                    old(self).connect_dialog.user_list.items@.len(),
                ),
                *final(self),
            ),
            old(self).connect_dialog.current_step == Step::Confirmation ==> toggle_flipped(
                *old(self),
                *final(self),
            ),
            old(self).connect_dialog.current_step == Step::DatabaseInput ==> *final(self)
                == *old(self),
    {
        match self.connect_dialog.current_step {
            Step::UserSelection => self.connect_dialog.user_list.select_next(),
            Step::Confirmation => self.connect_dialog.confirmation_toggle.toggle(),
            Step::DatabaseInput => {},
        }
    }

    fn handle_connect_up(&mut self)
        ensures
            old(self).connect_dialog.current_step == Step::UserSelection ==> user_moved(
                *old(self),
                previous_selection(
                    old(self).connect_dialog.user_list.selected,
                    old(self).connect_dialog.user_list.items@.len(),
                ),
                *final(self),
            ),
            old(self).connect_dialog.current_step == Step::Confirmation ==> toggle_flipped(
                *old(self),
                *final(self),
            ),
            old(self).connect_dialog.current_step == Step::DatabaseInput ==> *final(self)
                == *old(self),
    {
        match self.connect_dialog.current_step {
            Step::UserSelection => self.connect_dialog.user_list.select_previous(),
            Step::Confirmation => self.connect_dialog.confirmation_toggle.toggle(),
            Step::DatabaseInput => {},
        }
    }

    fn handle_connect_left(&mut self)
        ensures
            old(self).connect_dialog.current_step == Step::DatabaseInput ==> name_edited(
                *old(self),
                *final(self),
            ) && database_name_input::cursor_moved_left(
                old(self).connect_dialog.database_name_input,
                final(self).connect_dialog.database_name_input,
            ),
            old(self).connect_dialog.current_step != Step::DatabaseInput ==> *final(self)
                == *old(self),
    {
        if self.connect_dialog.current_step == Step::DatabaseInput {
            self.connect_dialog.database_name_input.move_cursor_left();
        }
    }

    fn handle_connect_right(&mut self)
        ensures
            old(self).connect_dialog.current_step == Step::DatabaseInput ==> name_edited(
                *old(self),
                *final(self),
            ) && database_name_input::cursor_moved_right(
                old(self).connect_dialog.database_name_input,
                final(self).connect_dialog.database_name_input,
            ),
            old(self).connect_dialog.current_step != Step::DatabaseInput ==> *final(self)
                == *old(self),
    {
        if self.connect_dialog.current_step == Step::DatabaseInput {
            self.connect_dialog.database_name_input.move_cursor_right();
        }
    }

    fn exit_connect(&mut self)
        ensures
            connect_closed(*old(self), *final(self)),
    {
        self.connect_dialog.reset();
        self.input_mode = InputMode::Normal;
        self.show_connect = false;
    }

    fn handle_database_list_next(&mut self)
        ensures
            database_moved(
                *old(self),
                next_selection(old(self).database_list.selected, old(self).database_list.items@.len()),
                *final(self),
            ),
    {
        self.database_list.select_next();
    }

    fn handle_database_list_previous(&mut self)
        ensures
            database_moved(
                *old(self),
                previous_selection(
                    old(self).database_list.selected,
                    old(self).database_list.items@.len(),
                ),
                *final(self),
            ),
    {
        self.database_list.select_previous();
    }

    fn breakout_and_connect(&mut self)
        ensures
            *final(self) == (App { initiate_connection: true, exit: true, ..*old(self) }),
    {
        self.initiate_connection = true;
        self.exit();
    }

    fn exit(&mut self)
        ensures
            *final(self) == (App { exit: true, ..*old(self) }),
    {
        self.exit = true;
    }
}

/// A copy of each string, in order.
fn clone_strings(v: &Vec<String>) -> (r: Vec<String>)
    ensures
        r@ == v@,
{
    let mut r: Vec<String> = Vec::new();
    let mut i: usize = 0;
    while i < v.len()
        invariant
            i <= v@.len(),
            r@ == v@.subrange(0, i as int),
        decreases v@.len() - i,
    {
        r.push(v[i].clone());
        assert(r@ =~= v@.subrange(0, i + 1));
        i = i + 1;
    }
    assert(v@.subrange(0, v@.len() as int) =~= v@);
    r
}

} // verus!
