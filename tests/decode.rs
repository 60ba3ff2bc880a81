use kith::labels::{parse_labels, label_to_key_value};
use kith::layout::{ColumnLayout, DecodeError};
use kith::tsh::{decode_batch, parse_allowed_users, DatabaseEntry, Tsh};

const WIDTHS: [usize; 9] = [8, 11, 8, 8, 14, 16, 5, 20, 7];

fn separator() -> String {
    WIDTHS.iter().map(|w| "-".repeat(*w)).collect::<Vec<_>>().join(" ")
}

fn row(values: [&str; 9]) -> String {
    values
        .iter()
        .zip(WIDTHS.iter())
        .map(|(v, w)| format!("{:<width$}", v, width = *w))
        .collect::<Vec<_>>()
        .join(" ")
}

fn layout() -> ColumnLayout {
    ColumnLayout::build(&separator()).unwrap()
}

const GOOD: [&str; 9] = [
    "orders",
    "Order store",
    "postgres",
    "rds",
    "db.local:5432",
    "[alice bob]",
    "ro",
    "env=prod,team=core",
    "tsh",
];

#[test]
fn decodes_every_column_of_a_row() {
    let entry = DatabaseEntry::decode(&row(GOOD), &layout()).unwrap();
    assert_eq!(entry.name, "orders");
    assert_eq!(entry.description, "Order store");
    assert_eq!(entry.protocol, "postgres");
    assert_eq!(entry.database_type, "rds");
    assert_eq!(entry.uri, "db.local:5432");
    assert_eq!(entry.allowed_users, vec!["alice".to_string(), "bob".to_string()]);
    assert_eq!(entry.database_roles, "ro");
    assert_eq!(entry.labels.len(), 2);
    assert_eq!(entry.labels.get("env"), Some(&"prod".to_string()));
    assert_eq!(entry.labels.get("team"), Some(&"core".to_string()));
    assert_eq!(entry.labels.get("zone"), None);
    assert_eq!(entry.connect, "tsh");
}

#[test]
fn round_trip_reproduces_trimmed_values() {
    let values = ["  a", "b  ", " c ", "d", "", "[x]", "r", "k=v", "z"];
    let entry = DatabaseEntry::decode(&row(values), &layout()).unwrap();
    assert_eq!(entry.name, "a");
    assert_eq!(entry.description, "b");
    assert_eq!(entry.protocol, "c");
    assert_eq!(entry.database_type, "d");
    assert_eq!(entry.uri, "");
    assert_eq!(entry.allowed_users, vec!["x".to_string()]);
    assert_eq!(entry.database_roles, "r");
    assert_eq!(entry.labels.entries(), &vec![("k".to_string(), "v".to_string())]);
    assert_eq!(entry.connect, "z");
}

#[test]
fn row_longer_than_the_layout_decodes_from_its_spans() {
    let mut long = row(GOOD);
    long.push_str("   trailing text");
    let entry = DatabaseEntry::decode(&long, &layout()).unwrap();
    assert_eq!(entry.name, "orders");
    assert_eq!(entry.connect, "tsh");
}

#[test]
fn row_shorter_than_the_last_column_fails() {
    let full = row(GOOD);
    let short = &full[..full.len() - 1];
    assert_eq!(DatabaseEntry::decode(short, &layout()).err(), Some(DecodeError::RowTooShort));
    assert_eq!(DatabaseEntry::decode("orders", &layout()).err(), Some(DecodeError::RowTooShort));
}

#[test]
fn malformed_label_fails_the_row() {
    let mut values = GOOD;
    values[7] = "env=prod,oops";
    assert_eq!(
        DatabaseEntry::decode(&row(values), &layout()).err(),
        Some(DecodeError::MalformedLabel)
    );
}

#[test]
fn decoding_under_a_narrow_layout_is_unknown_column() {
    let narrow = ColumnLayout::build_for("---- ----", 2).unwrap();
    assert_eq!(
        DatabaseEntry::decode(&row(GOOD), &narrow).err(),
        Some(DecodeError::UnknownColumn)
    );
}

#[test]
fn allowed_users_strip_one_bracket_pair_and_split_on_spaces() {
    assert_eq!(parse_allowed_users("[alice bob]"), vec!["alice".to_string(), "bob".to_string()]);
    assert_eq!(parse_allowed_users("alice  bob"), vec!["alice".to_string(), "bob".to_string()]);
    assert_eq!(parse_allowed_users("[[a]]"), vec!["[a]".to_string()]);
    assert_eq!(parse_allowed_users("[]"), Vec::<String>::new());
    assert_eq!(parse_allowed_users(""), Vec::<String>::new());
    assert_eq!(parse_allowed_users("[bob bob]"), vec!["bob".to_string(), "bob".to_string()]);
}

#[test]
fn labels_split_at_first_equals_and_last_write_wins() {
    let m = parse_labels("a=1,b=x=y,a=2").ok().unwrap();
    assert_eq!(
        m.entries(),
        &vec![("a".to_string(), "2".to_string()), ("b".to_string(), "x=y".to_string())]
    );
    assert_eq!(m.get("a"), Some(&"2".to_string()));
    assert_eq!(m.get("b"), Some(&"x=y".to_string()));
}

#[test]
fn blank_labels_column_is_malformed() {
    assert_eq!(parse_labels("").err(), Some(DecodeError::MalformedLabel));
    let mut values = GOOD;
    values[7] = "";
    assert_eq!(
        DatabaseEntry::decode(&row(values), &layout()).err(),
        Some(DecodeError::MalformedLabel)
    );
}

#[test]
fn label_without_equals_is_malformed() {
    assert_eq!(parse_labels("a=1,,b=2").err(), Some(DecodeError::MalformedLabel));
    assert_eq!(parse_labels("plain").err(), Some(DecodeError::MalformedLabel));
    assert_eq!(label_to_key_value("plain"), Err(DecodeError::MalformedLabel));
    assert_eq!(label_to_key_value("k="), Ok(("k".to_string(), "".to_string())));
    assert_eq!(label_to_key_value("=v"), Ok(("".to_string(), "v".to_string())));
}

#[test]
fn batch_with_one_bad_row_keeps_the_others_and_counts_one_skip() {
    let mut bad = GOOD;
    bad[7] = "broken";
    let mut second = GOOD;
    second[0] = "users";
    let rows = vec![row(GOOD), row(bad), row(second)];
    let (entries, skipped) = decode_batch(&rows, &layout());
    assert_eq!(skipped, 1);
    assert_eq!(entries.len(), 2);
    assert_eq!(entries[0].name, "orders");
    assert_eq!(entries[1].name, "users");
}

#[test]
fn batch_of_good_rows_skips_none() {
    let rows = vec![row(GOOD), row(GOOD)];
    let (entries, skipped) = decode_batch(&rows, &layout());
    assert_eq!(skipped, 0);
    assert_eq!(entries.len(), 2);
}

#[test]
fn listing_skips_title_separator_and_blank_lines() {
    let mut bad = GOOD;
    bad[7] = "broken";
    let lines = vec![
        "Name Description ...".to_string(),
        separator(),
        row(GOOD),
        String::new(),
        "   ".to_string(),
        row(bad),
    ];
    let mut tsh = Tsh::new();
    assert_eq!(tsh.load_lines(lines), Ok(1));
    assert_eq!(tsh.entries().len(), 1);
    assert_eq!(tsh.entries()[0].name, "orders");
}

#[test]
fn listing_replaces_the_previous_batch() {
    let mut tsh = Tsh::new();
    let first = vec!["t".to_string(), separator(), row(GOOD), row(GOOD)];
    assert_eq!(tsh.load_lines(first), Ok(0));
    assert_eq!(tsh.entries().len(), 2);
    let second = vec!["t".to_string(), separator(), row(GOOD)];
    assert_eq!(tsh.load_lines(second), Ok(0));
    assert_eq!(tsh.entries().len(), 1);
}

#[test]
fn listing_without_separator_line_is_empty() {
    let mut tsh = Tsh::new();
    assert_eq!(tsh.load_lines(vec!["title only".to_string()]), Err(DecodeError::MalformedSeparator));
    assert_eq!(tsh.entries().len(), 0);
    let lines = vec!["t".to_string(), "--- ---".to_string(), row(GOOD)];
    assert_eq!(tsh.load_lines(lines), Err(DecodeError::MalformedSeparator));
    assert_eq!(tsh.entries().len(), 0);
}

#[test]
fn decoded_record_takes_the_structured_shape() {
    let mut tsh = Tsh::new();
    let lines = vec!["t".to_string(), separator(), row(GOOD)];
    assert_eq!(tsh.load_lines(lines), Ok(0));
    let entries = tsh.into_entries();
    assert_eq!(entries.len(), 1);
    let database = entries.into_iter().next().unwrap().to_database();
    assert_eq!(database.metadata.name, "orders");
    assert_eq!(database.metadata.description, "Order store");
    assert_eq!(database.metadata.revision, "");
    assert_eq!(database.spec.protocol, "postgres");
    assert_eq!(database.spec.uri, "db.local:5432");
    assert!(database.spec.aws.region.is_none());
    assert_eq!(database.users.allowed, vec!["alice".to_string(), "bob".to_string()]);
    assert_eq!(database.metadata.labels.get("team"), Some(&"core".to_string()));
}
