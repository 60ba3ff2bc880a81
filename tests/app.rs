use kith::app::{Action, App, InputMode, Key};
use kith::catalog::{AwsSpec, Database, GcpSpec, Metadata, Spec, Users};
use kith::config::Config;
use kith::labels::LabelMap;
use kith::widgets::connect_dialog::Step;

fn database(name: &str, users: &[&str]) -> Database {
    Database {
        metadata: Metadata {
            name: name.to_string(),
            description: String::new(),
            revision: String::new(),
            labels: LabelMap::new(),
        },
        spec: Spec {
            protocol: "postgres".to_string(),
            uri: "db:5432".to_string(),
            aws: AwsSpec { region: None },
            gcp: GcpSpec { project_id: None, instance_id: None },
        },
        users: Users { allowed: users.iter().map(|u| u.to_string()).collect() },
    }
}

fn app_with_databases() -> App {
    let mut app = App::new(Config::new());
    app.load_databases(vec![database("orders", &["alice", "bob"]), database("users", &["carol"])]);
    app
}

#[test]
fn q_quits_and_l_logs_in() {
    let mut app = App::new(Config::new());
    assert!(matches!(app.handle_key_event(Key::Char('l')), Action::Login));
    assert!(app.logged_in);
    assert!(matches!(app.handle_key_event(Key::Char('q')), Action::Nothing));
    assert!(app.exit);
}

#[test]
fn search_enter_asks_for_login_and_listing_with_filter() {
    let mut app = App::new(Config::new());
    app.handle_key_event(Key::Char('s'));
    assert_eq!(app.input_mode, InputMode::Searching);
    assert!(app.show_search);
    app.handle_key_event(Key::Char('p'));
    app.handle_key_event(Key::Char('g'));
    app.handle_key_event(Key::Backspace);
    app.handle_key_event(Key::Char('q'));
    assert!(!app.exit);
    match app.handle_key_event(Key::Enter) {
        Action::Search(filter) => assert_eq!(filter, "pq"),
        _ => panic!("expected a search"),
    }
    assert!(app.logged_in);
    assert_eq!(app.input_mode, InputMode::Normal);
    assert!(!app.show_search);
    assert_eq!(app.search_dialog.search, "");
}

#[test]
fn escape_closes_search_without_searching() {
    let mut app = App::new(Config::new());
    app.handle_key_event(Key::Char('s'));
    app.handle_key_event(Key::Char('x'));
    assert!(matches!(app.handle_key_event(Key::Esc), Action::Nothing));
    assert_eq!(app.input_mode, InputMode::Normal);
    assert_eq!(app.search_dialog.search, "");
}

#[test]
fn database_list_moves_with_arrows() {
    let mut app = app_with_databases();
    app.handle_key_event(Key::Down);
    assert_eq!(app.database_list.selected, Some(0));
    app.handle_key_event(Key::Down);
    app.handle_key_event(Key::Down);
    assert_eq!(app.database_list.selected, Some(1));
    app.handle_key_event(Key::Up);
    assert_eq!(app.database_list.selected, Some(0));
    app.load_databases(vec![database("other", &[])]);
    assert_eq!(app.database_list.selected, None);
}

#[test]
fn connecting_through_keys_ends_with_connection_request() {
    let mut app = app_with_databases();
    app.handle_key_event(Key::Down);
    app.handle_key_event(Key::Char('c'));
    assert_eq!(app.input_mode, InputMode::Connecting);
    assert_eq!(app.connect_dialog.selected_entry, Some("orders".to_string()));
    app.handle_key_event(Key::Enter);
    assert_eq!(app.connect_dialog.current_step, Step::UserSelection);
    app.handle_key_event(Key::Down);
    app.handle_key_event(Key::Down);
    app.handle_key_event(Key::Enter);
    assert_eq!(app.connect_dialog.db_user, "bob");
    for c in "payments".chars() {
        app.handle_key_event(Key::Char(c));
    }
    app.handle_key_event(Key::Left);
    app.handle_key_event(Key::Backspace);
    app.handle_key_event(Key::Right);
    assert_eq!(app.connect_dialog.database_name_input.database_name, "paymens");
    app.handle_key_event(Key::Enter);
    assert_eq!(app.connect_dialog.current_step, Step::Confirmation);
    app.handle_key_event(Key::Down);
    app.handle_key_event(Key::Up);
    app.handle_key_event(Key::Enter);
    assert!(app.initiate_connection);
    assert!(app.exit);
    let args = app.connection_args().unwrap();
    assert_eq!(args.instance, "orders");
    assert_eq!(args.db_user, "bob");
    assert_eq!(args.db_name, "paymens");
}

#[test]
fn answering_no_closes_the_dialog() {
    let mut app = app_with_databases();
    app.handle_key_event(Key::Down);
    app.handle_key_event(Key::Char('c'));
    app.handle_key_event(Key::Down);
    app.handle_key_event(Key::Enter);
    app.handle_key_event(Key::Char('d'));
    app.handle_key_event(Key::Enter);
    app.handle_key_event(Key::Down);
    app.handle_key_event(Key::Enter);
    assert!(!app.initiate_connection);
    assert!(!app.exit);
    assert_eq!(app.input_mode, InputMode::Normal);
    assert!(!app.show_connect);
    assert_eq!(app.connect_dialog.current_step, Step::UserSelection);
    assert!(app.connect_dialog.selected_entry.is_none());
    assert!(app.connection_args().is_none());
}

#[test]
fn escape_cancels_the_dialog() {
    let mut app = app_with_databases();
    app.handle_key_event(Key::Down);
    app.handle_key_event(Key::Char('c'));
    app.handle_key_event(Key::Down);
    app.handle_key_event(Key::Enter);
    app.handle_key_event(Key::Esc);
    assert_eq!(app.input_mode, InputMode::Normal);
    assert_eq!(app.connect_dialog.current_step, Step::UserSelection);
    assert_eq!(app.connect_dialog.db_user, "");
    assert!(app.connect_dialog.user_list.items.is_empty());
}

#[test]
fn dialog_without_highlighted_database_cannot_advance() {
    let mut app = app_with_databases();
    app.handle_key_event(Key::Char('c'));
    app.handle_key_event(Key::Down);
    app.handle_key_event(Key::Enter);
    assert_eq!(app.connect_dialog.current_step, Step::UserSelection);
    assert!(app.connect_dialog.selected_entry.is_none());
}
