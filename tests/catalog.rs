use kith::catalog::{AwsSpec, ConnectionArgs, Database, Fields, GcpSpec, Metadata, Spec, Tsh, Users};
use kith::config::Config;
use kith::labels::LabelMap;

fn database(aws: Option<&str>, gcp: Option<(&str, Option<&str>)>) -> Database {
    let mut labels = LabelMap::new();
    labels.insert("env".to_string(), "prod".to_string());
    labels.insert("team".to_string(), "core".to_string());
    Database {
        metadata: Metadata {
            name: "orders".to_string(),
            description: "Order store".to_string(),
            revision: "7".to_string(),
            labels,
        },
        spec: Spec {
            protocol: "postgres".to_string(),
            uri: "db.local:5432".to_string(),
            aws: AwsSpec { region: aws.map(|r| r.to_string()) },
            gcp: GcpSpec {
                project_id: gcp.map(|g| g.0.to_string()),
                instance_id: gcp.and_then(|g| g.1.map(|i| i.to_string())),
            },
        },
        users: Users { allowed: vec!["alice".to_string(), "bob".to_string()] },
    }
}

#[test]
fn details_list_fields_users_and_labels() {
    let details = database(Some("eu-west-1"), None).format_details();
    assert_eq!(
        details,
        "Name: orders\nDescription: Order store\nProtocol: postgres\nURI: db.local:5432\n\
         AWS Region: eu-west-1\nAllowed Users:\n  - alice\n  - bob\nLabels:\n  - env: prod\n  - team: core\n"
    );
}

#[test]
fn details_show_gcp_instance_or_unknown() {
    let details = database(None, Some(("proj", None))).format_details();
    assert_eq!(
        details,
        "Name: orders\nDescription: Order store\nProtocol: postgres\nURI: db.local:5432\n\
         GCP Project: proj\nGCP Instance: unknown\nAllowed Users:\n  - alice\n  - bob\nLabels:\n  - env: prod\n  - team: core\n"
    );
    let with_instance = database(None, Some(("proj", Some("inst")))).format_details();
    assert!(with_instance.contains("GCP Project: proj\nGCP Instance: inst\n"));
}

#[test]
fn details_without_cloud_users_or_labels() {
    let mut db = database(None, None);
    db.users.allowed.clear();
    db.metadata.labels = LabelMap::new();
    assert_eq!(
        db.format_details(),
        "Name: orders\nDescription: Order store\nProtocol: postgres\nURI: db.local:5432\nAllowed Users:\nLabels:\n"
    );
}

#[test]
fn field_titles() {
    assert_eq!(Fields::AwsRegion.to_string(), "AWS Region");
    assert_eq!(Fields::AllowedUsers.to_string(), "Allowed Users");
}

#[test]
fn connection_command_and_script() {
    let args = ConnectionArgs {
        instance: "orders".to_string(),
        db_user: "alice".to_string(),
        db_name: "payments".to_string(),
    };
    assert_eq!(args.connection_command(), "tsh db connect --db-user=alice --db-name=payments orders");
    assert_eq!(
        args.terminal_script(),
        "\n            tell application \"Terminal\"\n                activate\n                do script \"tsh db connect --db-user=alice --db-name=payments orders\"\n            end tell\n            "
    );
}

#[test]
fn connect_args_name_user_database_and_target() {
    let db = database(None, None);
    assert_eq!(
        db.connect_args("payments", "alice"),
        vec!["db", "connect", "--db-user=alice", "--db-name=payments", "orders"]
    );
}

#[test]
fn loading_databases_replaces_the_list() {
    let mut tsh = Tsh::new();
    tsh.load_databases(vec![database(None, None), database(None, None)]);
    assert_eq!(tsh.databases.len(), 2);
    tsh.load_databases(vec![database(None, None)]);
    assert_eq!(tsh.databases.len(), 1);
}

#[test]
fn config_takes_set_values_only() {
    let mut config = Config::new();
    assert_eq!(config.tsh_proxy, "");
    config.load(Some("proxy.example:443".to_string()), None);
    assert_eq!(config.tsh_proxy, "proxy.example:443");
    assert_eq!(config.tsh_cluster, "");
    config.load(None, Some("main".to_string()));
    assert_eq!(config.tsh_proxy, "proxy.example:443");
    assert_eq!(config.tsh_cluster, "main");
}
