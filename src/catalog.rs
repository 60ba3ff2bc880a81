//! The broker's databases in its structured form (`tsh db ls --format=json`),
//! their details as shown beside the list, and the command that opens a
//! session on one of them.
use vstd::prelude::*;
use vstd::string::*;
use crate::labels::{label_views, LabelMap, LabelSeq};
use crate::text::views;

verus! {

/// The databases that the last listing returned.
pub struct Tsh {
    pub databases: Vec<Database>,
}

/// What opening a session needs: the database, the user and the database name.
pub struct ConnectionArgs {
    pub instance: String,
    pub db_user: String,
    pub db_name: String,
}

pub struct Database {
    pub metadata: Metadata,
    pub spec: Spec,
    pub users: Users,
}

pub struct Metadata {
    pub name: String,
    pub description: String,
    pub revision: String,
    pub labels: LabelMap,
}

pub struct Users {
    pub allowed: Vec<String>,
}

pub struct Spec {
    pub protocol: String,
    pub uri: String,
    pub aws: AwsSpec,
    pub gcp: GcpSpec,
}

pub struct AwsSpec {
    pub region: Option<String>,
}

pub struct GcpSpec {
    pub project_id: Option<String>,
    pub instance_id: Option<String>,
}

/// The fields shown in a database's details.
pub enum Fields {
    Name,
    Description,
    Protocol,
    Uri,
    AwsRegion,
    GcpProject,
    GcpInstance,
    AllowedUsers,
    Labels,
}

impl Fields {
    pub open spec fn title(self) -> Seq<char> {
        match self {
            Fields::Name => "Name"@,
            Fields::Description => "Description"@,
            Fields::Protocol => "Protocol"@,
            Fields::Uri => "URI"@,
            Fields::AwsRegion => "AWS Region"@,
            Fields::GcpProject => "GCP Project"@,
            Fields::GcpInstance => "GCP Instance"@,
            Fields::AllowedUsers => "Allowed Users"@,
            Fields::Labels => "Labels"@,
        }
    }

    /// The field's title.
    pub fn to_string(&self) -> (r: &'static str)
        ensures
            r@ == self.title(),
    {
        match self {
            Fields::Name => "Name",
            Fields::Description => "Description",
            Fields::Protocol => "Protocol",
            Fields::Uri => "URI",
            Fields::AwsRegion => "AWS Region",
            Fields::GcpProject => "GCP Project",
            Fields::GcpInstance => "GCP Instance",
            Fields::AllowedUsers => "Allowed Users",
            Fields::Labels => "Labels",
        }
    }
}

/// One line of details: `title: value`.
pub open spec fn detail_line(title: Seq<char>, value: Seq<char>) -> Seq<char> {
    title + ": "@ + value + "\n"@
}

/// One indented list item per user.
pub open spec fn user_lines(users: Seq<Seq<char>>) -> Seq<char>
    decreases users.len(),
{
    if users.len() == 0 {
        Seq::empty()
    } else {
        user_lines(users.drop_last()) + "  - "@ + users.last() + "\n"@
    }
}

/// One indented `key: value` item per label, in order.
pub open spec fn label_lines(labels: LabelSeq) -> Seq<char>
    decreases labels.len(),
{
    if labels.len() == 0 {
        Seq::empty()
    } else {
        label_lines(labels.drop_last()) + "  - "@ + labels.last().0 + ": "@ + labels.last().1
            + "\n"@
    }
}

pub open spec fn or_unknown(v: Option<String>) -> Seq<char> {
    match v {
        Some(s) => s@,
        None => "unknown"@,
    }
}

/// The details of `db`: name, description, protocol and URI; the AWS region
/// where there is one; the GCP project and instance where there is a project;
/// then the allowed users and the labels as lists.
pub open spec fn details_of(db: Database) -> Seq<char> {
    detail_line(Fields::Name.title(), db.metadata.name@) + detail_line(
        Fields::Description.title(),
        db.metadata.description@,
    ) + detail_line(Fields::Protocol.title(), db.spec.protocol@) + detail_line(
        Fields::Uri.title(),
        db.spec.uri@,
    ) + (if db.spec.aws.region is Some {
        detail_line(Fields::AwsRegion.title(), or_unknown(db.spec.aws.region))
    } else {
        Seq::empty()
    }) + (if db.spec.gcp.project_id is Some {
        detail_line(Fields::GcpProject.title(), or_unknown(db.spec.gcp.project_id)) + detail_line(
            Fields::GcpInstance.title(),
            or_unknown(db.spec.gcp.instance_id),
        )
    } else {
        Seq::empty()
    }) + Fields::AllowedUsers.title() + ":\n"@ + user_lines(views(db.users.allowed@))
        + Fields::Labels.title() + ":\n"@ + label_lines(db.metadata.labels@)
}

/// Appends `title: value` and a line break to `out`.
fn push_detail(out: &mut String, title: &str, value: &str)
    ensures
        final(out)@ == old(out)@ + detail_line(title@, value@),
{
    out.append(title);
    out.append(": ");
    out.append(value);
    out.append("\n");
    assert(final(out)@ =~= old(out)@ + detail_line(title@, value@));
}

/// `v`, or `unknown` where it is absent.
fn value_or_unknown(v: &Option<String>) -> (r: &str)
    ensures
        r@ == or_unknown(*v),
{
    match v {
        Some(s) => s.as_str(),
        None => "unknown",
    }
}

impl Database {
    /// The database's details, one field per line.
    pub fn format_details(&self) -> (r: String)
        ensures
            r@ == details_of(*self),
    {
        let mut details = String::new();
        push_detail(&mut details, Fields::Name.to_string(), self.metadata.name.as_str());
        push_detail(&mut details, Fields::Description.to_string(), self.metadata.description.as_str());
        push_detail(&mut details, Fields::Protocol.to_string(), self.spec.protocol.as_str());
        push_detail(&mut details, Fields::Uri.to_string(), self.spec.uri.as_str());
        if self.spec.aws.region.is_some() {
            push_detail(
                &mut details,
                Fields::AwsRegion.to_string(),
                value_or_unknown(&self.spec.aws.region),
            );
        }
        if self.spec.gcp.project_id.is_some() {
            push_detail(
                &mut details,
                Fields::GcpProject.to_string(),
                value_or_unknown(&self.spec.gcp.project_id),
            );
            push_detail(
                &mut details,
                Fields::GcpInstance.to_string(),
                value_or_unknown(&self.spec.gcp.instance_id),
            );
        }
        details.append(Fields::AllowedUsers.to_string());
        details.append(":\n");
        let ghost users = views(self.users.allowed@);
        let mut i: usize = 0;
        let ghost before_users = details@;
        assert(users.subrange(0, 0) =~= Seq::<Seq<char>>::empty());
        assert(details@ =~= before_users + user_lines(users.subrange(0, 0)));
        while i < self.users.allowed.len()
            invariant
                users == views(self.users.allowed@),
                i <= users.len(),
                details@ == before_users + user_lines(users.subrange(0, i as int)),
            decreases users.len() - i,
        {
            details.append("  - ");
            details.append(self.users.allowed[i].as_str());
            details.append("\n");
            proof {
                assert(users.subrange(0, i + 1).drop_last() =~= users.subrange(0, i as int));
                assert(users.subrange(0, i + 1).last() == self.users.allowed@[i as int]@);
                assert(details@ =~= before_users + user_lines(users.subrange(0, i + 1)));
            }
            i = i + 1;
        }
        assert(users.subrange(0, users.len() as int) =~= users);
        details.append(Fields::Labels.to_string());
        details.append(":\n");
        let entries = self.metadata.labels.entries();
        let ghost labels = label_views(entries@);
        let ghost before_labels = details@;
        let mut j: usize = 0;
        assert(labels.subrange(0, 0) =~= Seq::<(Seq<char>, Seq<char>)>::empty());
        assert(details@ =~= before_labels + label_lines(labels.subrange(0, 0)));
        while j < entries.len()
            invariant
                labels == label_views(entries@),
                j <= labels.len(),
                details@ == before_labels + label_lines(labels.subrange(0, j as int)),
            decreases labels.len() - j,
        {
            details.append("  - ");
            details.append(entries[j].0.as_str());
            details.append(": ");
            details.append(entries[j].1.as_str());
            details.append("\n");
            proof {
                assert(labels.subrange(0, j + 1).drop_last() =~= labels.subrange(0, j as int));
                assert(labels.subrange(0, j + 1).last() == labels[j as int]);
                assert(details@ =~= before_labels + label_lines(labels.subrange(0, j + 1)));
            }
            j = j + 1;
        }
        assert(labels.subrange(0, labels.len() as int) =~= labels);
        assert(details@ =~= details_of(*self));
        details
    }

    /// The arguments of `tsh` that open a session on this database as
    /// `db_user`, on the database `db_name`.
    pub fn connect_args(&self, db_name: &str, db_user: &str) -> (r: Vec<String>)
        ensures
            views(r@) == seq![
                "db"@,
                "connect"@,
                "--db-user="@ + db_user@,
                "--db-name="@ + db_name@,
                self.metadata.name@,
            ],
    {
        let mut user_arg = String::from_str("--db-user=");
        user_arg.append(db_user);
        let mut name_arg = String::from_str("--db-name=");
        name_arg.append(db_name);
        let mut r: Vec<String> = Vec::new();
        r.push(String::from_str("db"));
        r.push(String::from_str("connect"));
        r.push(user_arg);
        r.push(name_arg);
        r.push(self.metadata.name.clone());
        assert(views(r@) =~= seq![
            "db"@,
            "connect"@,
            "--db-user="@ + db_user@,
            "--db-name="@ + db_name@,
            self.metadata.name@,
        ]);
        r
    }
}

/// The shell command that opens a session for `args`.
pub open spec fn connection_command(args: ConnectionArgs) -> Seq<char> {
    "tsh db connect --db-user="@ + args.db_user@ + " --db-name="@ + args.db_name@ + " "@
        + args.instance@
}

/// An AppleScript that runs `command` in a new Terminal window.
pub open spec fn terminal_script(command: Seq<char>) -> Seq<char> {
    "\n            tell application \"Terminal\"\n                activate\n                do script \""@
        + command + "\"\n            end tell\n            "@
}

impl ConnectionArgs {
    /// The shell command that opens the session.
    pub fn connection_command(&self) -> (r: String)
        ensures
            r@ == connection_command(*self),
    {
        let mut r = String::from_str("tsh db connect --db-user=");
        r.append(self.db_user.as_str());
        r.append(" --db-name=");
        r.append(self.db_name.as_str());
        r.append(" ");
        r.append(self.instance.as_str());
        assert(r@ =~= connection_command(*self));
        r
    }

    /// An AppleScript that opens the session in a new Terminal window, so
    /// that it does not run inside this interface's terminal.
    pub fn terminal_script(&self) -> (r: String)
        ensures
            r@ == terminal_script(connection_command(*self)),
    {
        let command = self.connection_command();
        let mut r = String::from_str(
            "\n            tell application \"Terminal\"\n                activate\n                do script \"",
        );
        r.append(command.as_str());
        r.append("\"\n            end tell\n            ");
        assert(r@ =~= terminal_script(connection_command(*self)));
        r
    }
}

impl Tsh {
    pub fn new() -> (r: Tsh)
        ensures
            r.databases@.len() == 0,
    {
        Tsh { databases: Vec::new() }
    }

    /// Replaces the databases with those of a new listing.
    pub fn load_databases(&mut self, databases: Vec<Database>)
        ensures
            final(self).databases@ == databases@,
    {
        self.databases = databases;
    }
}

} // verus!
