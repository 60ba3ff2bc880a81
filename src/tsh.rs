//! Records of the broker's tabular database listing (`tsh db ls -v`): one row
//! decoded into a record through the column layout, and a listing decoded row
//! by row, skipping the rows that cannot be decoded.
use vstd::prelude::*;
use vstd::string::*;
use vstd::utf8::{encode_utf8, is_char_boundary};
use crate::catalog::{AwsSpec, Database, GcpSpec, Metadata, Spec, Users};
use crate::labels::{parse_labels, parsed_labels, LabelMap, LabelSeq};
use crate::layout::{
    byte_span, column_end, column_start, column_text, encode_row, lemma_column_start_monotonic,
    lemma_round_trip, run_widths, values_fit, ColumnLayout, Columns, DecodeError, Lines,
    COLUMN_COUNT,
};
use crate::text::{split_tokens, tokens, trim, trimmed, views};

verus! {

/// One database of the listing. Each field is the trimmed text of its column,
/// but for the allowed users, the words of their column in order (repeats
/// kept), and the labels. The roles column is kept as one string, as it is
/// printed.
pub struct DatabaseEntry {
    pub name: String,
    pub description: String,
    pub protocol: String,
    pub database_type: String,
    pub uri: String,
    pub allowed_users: Vec<String>,
    pub database_roles: String,
    pub labels: LabelMap,
    pub connect: String,
}

/// A database of the listing, as character sequences.
pub struct EntryView {
    pub name: Seq<char>,
    pub description: Seq<char>,
    pub protocol: Seq<char>,
    pub database_type: Seq<char>,
    pub uri: Seq<char>,
    pub allowed_users: Seq<Seq<char>>,
    pub database_roles: Seq<char>,
    pub labels: LabelSeq,
    pub connect: Seq<char>,
}

impl View for DatabaseEntry {
    type V = EntryView;

    open spec fn view(&self) -> EntryView {
        EntryView {
            name: self.name@,
            description: self.description@,
            protocol: self.protocol@,
            database_type: self.database_type@,
            uri: self.uri@,
            allowed_users: views(self.allowed_users@),
            database_roles: self.database_roles@,
            labels: self.labels@,
            connect: self.connect@,
        }
    }
}

/// The text without one leading `[` and one trailing `]`, where present.
pub open spec fn strip_brackets(t: Seq<char>) -> Seq<char> {
    let a = if t.len() > 0 && t[0] == '[' {
        t.drop_first()
    } else {
        t
    };
    if a.len() > 0 && a.last() == ']' {
        a.drop_last()
    } else {
        a
    }
}

/// The users that an allowed-users column names: the space-separated words
/// inside its brackets, in order.
pub open spec fn users_of(t: Seq<char>) -> Seq<Seq<char>> {
    tokens(strip_brackets(t), ' ')
}

/// The first error met when slicing columns `0..k` of `row` in order.
pub open spec fn first_column_error(row: Seq<char>, widths: Seq<nat>, k: nat) -> Option<DecodeError>
    decreases k,
{
    if k == 0 {
        None
    } else {
        match first_column_error(row, widths, (k - 1) as nat) {
            Some(e) => Some(e),
            None => match column_text(row, widths, k - 1) {
                Err(e) => Some(e),
                Ok(_) => None,
            },
        }
    }
}

/// The text of a column known to slice cleanly.
pub open spec fn text_at(row: Seq<char>, widths: Seq<nat>, c: Columns) -> Seq<char> {
    match column_text(row, widths, c.index() as int) {
        Ok(t) => t,
        Err(_) => Seq::empty(),
    }
}

/// What decoding `row` under the column widths `widths` gives: the columns are
/// sliced in order, the first that fails decides the error; then the labels
/// column is read.
pub open spec fn decoded_row(row: Seq<char>, widths: Seq<nat>) -> Result<EntryView, DecodeError> {
    match first_column_error(row, widths, COLUMN_COUNT as nat) {
        Some(e) => Err(e),
        None => match parsed_labels(text_at(row, widths, Columns::Labels)) {
            None => Err(DecodeError::MalformedLabel),
            Some(labels) => Ok(
                EntryView {
                    name: text_at(row, widths, Columns::Name),
                    description: text_at(row, widths, Columns::Description),
                    protocol: text_at(row, widths, Columns::Protocol),
                    database_type: text_at(row, widths, Columns::DatabaseType),
                    uri: text_at(row, widths, Columns::Uri),
                    allowed_users: users_of(text_at(row, widths, Columns::AllowedUsers)),
                    database_roles: text_at(row, widths, Columns::DatabaseRoles),
                    labels,
                    connect: text_at(row, widths, Columns::Connect),
                },
            ),
        },
    }
}

pub open spec fn entry_result(r: Result<DatabaseEntry, DecodeError>) -> Result<EntryView, DecodeError> {
    match r {
        Ok(e) => Ok(e@),
        Err(e) => Err(e),
    }
}

proof fn lemma_first_column_error_stays(row: Seq<char>, widths: Seq<nat>, k: nat, n: nat)
    requires
        k <= n,
        first_column_error(row, widths, k) is Some,
    ensures
        first_column_error(row, widths, n) == first_column_error(row, widths, k),
    decreases n - k,
{
    if k < n {
        lemma_first_column_error_stays(row, widths, k, (n - 1) as nat);
    }
}

proof fn lemma_columns_slice(row: Seq<char>, widths: Seq<nat>, k: nat)
    requires
        k <= COLUMN_COUNT,
        forall|i: int| 0 <= i < COLUMN_COUNT ==> (#[trigger] column_text(row, widths, i)) is Ok,
    ensures
        first_column_error(row, widths, k) is None,
    decreases k,
{
    if k > 0 {
        lemma_columns_slice(row, widths, (k - 1) as nat);
        assert(column_text(row, widths, k - 1) is Ok);
    }
}

/// The characters in the byte span of column `i` of `row`, trimmed.
pub open spec fn span_text(row: Seq<char>, widths: Seq<nat>, i: int) -> Seq<char> {
    trimmed(byte_span(row, column_start(widths, i), column_end(widths, i)))
}

/// Whether every column's span in `row` starts and ends between characters.
pub open spec fn spans_aligned(row: Seq<char>, widths: Seq<nat>) -> bool {
    forall|i: int|
        #![trigger column_start(widths, i)]
        0 <= i < widths.len() ==> is_char_boundary(encode_utf8(row), column_start(widths, i))
            && is_char_boundary(encode_utf8(row), column_end(widths, i))
}

/// A row that reaches the end of the last column decodes, each field being the
/// text of its column's byte span, trimmed. This holds where every span starts
/// and ends between characters and the labels column is well formed: without
/// these the row fails with `SplitCharacter` or `MalformedLabel`.
pub proof fn lemma_long_row_decodes(row: Seq<char>, widths: Seq<nat>)
    requires
        widths.len() == COLUMN_COUNT,
        column_end(widths, COLUMN_COUNT - 1) <= encode_utf8(row).len(),
        spans_aligned(row, widths),
        parsed_labels(span_text(row, widths, 7)) is Some,
    ensures
        decoded_row(row, widths) == Ok::<EntryView, DecodeError>(
            EntryView {
                name: span_text(row, widths, 0),
                description: span_text(row, widths, 1),
                protocol: span_text(row, widths, 2),
                database_type: span_text(row, widths, 3),
                uri: span_text(row, widths, 4),
                allowed_users: users_of(span_text(row, widths, 5)),
                database_roles: span_text(row, widths, 6),
                labels: parsed_labels(span_text(row, widths, 7))->Some_0,
                connect: span_text(row, widths, 8),
            },
        ),
{
    assert forall|i: int| 0 <= i < COLUMN_COUNT implies #[trigger] column_text(row, widths, i)
        == Ok::<Seq<char>, DecodeError>(span_text(row, widths, i)) by {
        lemma_column_start_monotonic(widths, i, COLUMN_COUNT - 1);
    }
    lemma_columns_slice(row, widths, COLUMN_COUNT as nat);
}

/// Round trip: a row laid out from nine values that fit their columns decodes
/// into those values, trimmed, the allowed users and labels read from theirs,
/// provided the labels value is well formed.
pub proof fn lemma_decode_round_trip(values: Seq<Seq<char>>, widths: Seq<nat>)
    requires
        values.len() == COLUMN_COUNT,
        values_fit(values, widths),
        parsed_labels(trimmed(values[7])) is Some,
    ensures
        decoded_row(encode_row(values, widths), widths) == Ok::<EntryView, DecodeError>(
            EntryView {
                name: trimmed(values[0]),
                description: trimmed(values[1]),
                protocol: trimmed(values[2]),
                database_type: trimmed(values[3]),
                uri: trimmed(values[4]),
                allowed_users: users_of(trimmed(values[5])),
                database_roles: trimmed(values[6]),
                labels: parsed_labels(trimmed(values[7]))->Some_0,
                connect: trimmed(values[8]),
            },
        ),
{
    let row = encode_row(values, widths);
    assert forall|i: int| 0 <= i < COLUMN_COUNT implies #[trigger] column_text(row, widths, i)
        == Ok::<Seq<char>, DecodeError>(trimmed(values[i])) by {
        lemma_round_trip(values, widths, i);
    }
    lemma_columns_slice(row, widths, COLUMN_COUNT as nat);
}

/// Reads the allowed-users column: the words inside its brackets.
pub fn parse_allowed_users(text: &str) -> (r: Vec<String>)
    ensures
        views(r@) == users_of(text@),
{
    let n = text.unicode_len();
    let mut a: usize = 0;
    let mut b: usize = n;
    if n > 0 && text.get_char(0) == '[' {
        a = 1;
    }
    if b > a && text.get_char(b - 1) == ']' {
        b = b - 1;
    }
    let inner = text.substring_char(a, b);
    proof {
        let t = text@;
        let s = if t.len() > 0 && t[0] == '[' {
            t.drop_first()
        } else {
            t
        };
        assert(s =~= t.subrange(a as int, n as int));
        if s.len() > 0 && s.last() == ']' {
            assert(s.drop_last() =~= t.subrange(a as int, b as int));
        }
        assert(inner@ =~= strip_brackets(t));
    }
    split_tokens(inner, ' ')
}

impl DatabaseEntry {
    /// The record in the shape of the structured listing: name, description,
    /// protocol, URI, allowed users and labels carry over; the listing's text
    /// has no revision and no cloud details.
    pub fn to_database(self) -> (r: Database)
        ensures
            r.metadata.name@ == self.name@,
            r.metadata.description@ == self.description@,
            r.metadata.revision@.len() == 0,
            r.metadata.labels@ == self.labels@,
            r.spec.protocol@ == self.protocol@,
            r.spec.uri@ == self.uri@,
            r.spec.aws.region is None,
            r.spec.gcp.project_id is None,
            r.spec.gcp.instance_id is None,
            r.users.allowed@ == self.allowed_users@,
    {
        Database {
            metadata: Metadata {
                name: self.name,
                description: self.description,
                revision: String::new(),
                labels: self.labels,
            },
            spec: Spec {
                protocol: self.protocol,
                uri: self.uri,
                aws: AwsSpec { region: None },
                gcp: GcpSpec { project_id: None, instance_id: None },
            },
            users: Users { allowed: self.allowed_users },
        }
    }

    /// Decodes one row of the listing under `layout`.
    pub fn decode(row: &str, layout: &ColumnLayout) -> (r: Result<DatabaseEntry, DecodeError>)
        ensures
            entry_result(r) == decoded_row(row@, layout@),
    {
        let mut texts: Vec<String> = Vec::new();
        let mut i: usize = 0;
        while i < COLUMN_COUNT
            invariant
                i <= COLUMN_COUNT,
                texts@.len() == i,
                first_column_error(row@, layout@, i as nat) is None,
                forall|k: int|
                    0 <= k < i ==> column_text(row@, layout@, k) == Ok::<Seq<char>, DecodeError>(
                        (#[trigger] texts@[k])@,
                    ),
            decreases COLUMN_COUNT - i,
        {
            match layout.field(row, i) {
                Ok(t) => {
                    texts.push(t);
                },
                Err(e) => {
                    proof {
                        lemma_first_column_error_stays(row@, layout@, (i + 1) as nat, COLUMN_COUNT as nat);
                    }
                    return Err(e);
                },
            }
            i = i + 1;
        }
        let labels = match parse_labels(texts[Columns::Labels.to_usize()].as_str()) {
            Ok(m) => m,
            Err(e) => {
                return Err(e);
            },
        };
        let allowed_users = parse_allowed_users(texts[Columns::AllowedUsers.to_usize()].as_str());
        let entry = DatabaseEntry {
            name: texts[Columns::Name.to_usize()].clone(),
            description: texts[Columns::Description.to_usize()].clone(),
            protocol: texts[Columns::Protocol.to_usize()].clone(),
            database_type: texts[Columns::DatabaseType.to_usize()].clone(),
            uri: texts[Columns::Uri.to_usize()].clone(),
            allowed_users,
            database_roles: texts[Columns::DatabaseRoles.to_usize()].clone(),
            labels,
            connect: texts[Columns::Connect.to_usize()].clone(),
        };
        Ok(entry)
    }
}


pub open spec fn entry_views(v: Seq<DatabaseEntry>) -> Seq<EntryView> {
    v.map_values(|e: DatabaseEntry| e@)
}

/// The records that decoding `rows` one by one gives, the rows that fail left out.
pub open spec fn decoded_rows(rows: Seq<Seq<char>>, widths: Seq<nat>) -> Seq<EntryView>
    decreases rows.len(),
{
    if rows.len() == 0 {
        Seq::empty()
    } else {
        let p = decoded_rows(rows.drop_last(), widths);
        match decoded_row(rows.last(), widths) {
            Ok(e) => p.push(e),
            Err(_) => p,
        }
    }
}

/// How many of `rows` fail to decode.
pub open spec fn skipped_rows(rows: Seq<Seq<char>>, widths: Seq<nat>) -> nat
    decreases rows.len(),
{
    if rows.len() == 0 {
        0
    } else {
        skipped_rows(rows.drop_last(), widths) + if decoded_row(rows.last(), widths) is Ok {
            0nat
        } else {
            1nat
        }
    }
}

proof fn lemma_all_rows_decode(rows: Seq<Seq<char>>, widths: Seq<nat>)
    requires
        forall|i: int| 0 <= i < rows.len() ==> (#[trigger] decoded_row(rows[i], widths)) is Ok,
    ensures
        decoded_rows(rows, widths).len() == rows.len(),
        skipped_rows(rows, widths) == 0,
    decreases rows.len(),
{
    if rows.len() > 0 {
        let p = rows.drop_last();
        assert forall|i: int| 0 <= i < p.len() implies (#[trigger] decoded_row(p[i], widths)) is Ok by {
            assert(p[i] == rows[i]);
        }
        lemma_all_rows_decode(p, widths);
        assert(decoded_row(rows[rows.len() - 1], widths) is Ok);
    }
}

/// A batch in which exactly one row fails to decode gives a record for each of
/// the other rows and reports exactly one skipped row.
pub proof fn lemma_one_bad_row(rows: Seq<Seq<char>>, widths: Seq<nat>, bad: int)
    requires
        0 <= bad < rows.len(),
        decoded_row(rows[bad], widths) is Err,
        forall|i: int|
            0 <= i < rows.len() && i != bad ==> (#[trigger] decoded_row(rows[i], widths)) is Ok,
    ensures
        decoded_rows(rows, widths).len() == rows.len() - 1,
        skipped_rows(rows, widths) == 1,
    decreases rows.len(),
{
    let p = rows.drop_last();
    if bad == rows.len() - 1 {
        assert forall|i: int| 0 <= i < p.len() implies (#[trigger] decoded_row(p[i], widths)) is Ok by {
            assert(p[i] == rows[i]);
        }
        lemma_all_rows_decode(p, widths);
    } else {
        assert forall|i: int| 0 <= i < p.len() && i != bad implies (#[trigger] decoded_row(
            p[i],
            widths,
        )) is Ok by {
            assert(p[i] == rows[i]);
        }
        assert(p[bad] == rows[bad]);
        lemma_one_bad_row(p, widths, bad);
        assert(decoded_row(rows[rows.len() - 1], widths) is Ok);
    }
}

/// Decodes each row under `layout`; a row that fails is skipped and counted,
/// the others are kept in order.
pub fn decode_batch(rows: &Vec<String>, layout: &ColumnLayout) -> (r: (Vec<DatabaseEntry>, usize))
    ensures
        entry_views(r.0@) == decoded_rows(views(rows@), layout@),
        r.1 == skipped_rows(views(rows@), layout@),
{
    let ghost rv = views(rows@);
    let mut entries: Vec<DatabaseEntry> = Vec::new();
    let mut skipped: usize = 0;
    let mut i: usize = 0;
    proof {
        assert(rv.subrange(0, 0) =~= Seq::<Seq<char>>::empty());
        assert(entry_views(entries@) =~= Seq::<EntryView>::empty());
    }
    while i < rows.len()
        invariant
            rv == views(rows@),
            i <= rows@.len(),
            skipped <= i,
            entry_views(entries@) == decoded_rows(rv.subrange(0, i as int), layout@),
            skipped == skipped_rows(rv.subrange(0, i as int), layout@),
        decreases rows@.len() - i,
    {
        proof {
            assert(rv.subrange(0, i + 1).drop_last() =~= rv.subrange(0, i as int));
            assert(rv.subrange(0, i + 1).last() == rows@[i as int]@);
        }
        match DatabaseEntry::decode(rows[i].as_str(), layout) {
            Ok(e) => {
                let ghost before = entries@;
                entries.push(e);
                assert(entry_views(entries@) =~= entry_views(before).push(entries@.last()@));
            },
            Err(_) => {
                skipped = skipped + 1;
            },
        }
        i = i + 1;
    }
    assert(rv.subrange(0, rows@.len() as int) =~= rv);
    (entries, skipped)
}

/// The rows of a listing that hold data: those after the separator line that
/// are not blank.
pub open spec fn data_rows(lines: Seq<Seq<char>>) -> Seq<Seq<char>> {
    lines.subrange(2, lines.len() as int).filter(|r: Seq<char>| trimmed(r).len() > 0)
}

/// The column widths that the separator line of a listing gives.
pub open spec fn listing_widths(lines: Seq<Seq<char>>) -> Seq<nat> {
    run_widths(encode_utf8(lines[1]))
}

/// Whether the listing's separator line describes every column.
pub open spec fn listing_well_formed(lines: Seq<Seq<char>>) -> bool {
    lines.len() >= 2 && listing_widths(lines).len() == COLUMN_COUNT
}

/// A listing as character sequences.
pub struct ListingView {
    pub lines: Seq<Seq<char>>,
    pub widths: Option<Seq<nat>>,
    pub raw_entries: Seq<Seq<char>>,
    pub entries: Seq<EntryView>,
}

/// The broker's database listing: its lines, the layout read from them, the
/// data rows and the records decoded from those rows.
pub struct Tsh {
    lines: Vec<String>,
    layout: Option<ColumnLayout>,
    raw_entries: Vec<String>,
    entries: Vec<DatabaseEntry>,
}

impl View for Tsh {
    type V = ListingView;

    closed spec fn view(&self) -> ListingView {
        ListingView {
            lines: views(self.lines@),
            widths: match self.layout {
                Some(l) => Some(l@),
                None => None,
            },
            raw_entries: views(self.raw_entries@),
            entries: entry_views(self.entries@),
        }
    }
}

impl Tsh {
    pub fn new() -> (r: Tsh)
        ensures
            r@.lines.len() == 0,
            r@.widths is None,
            r@.raw_entries.len() == 0,
            r@.entries.len() == 0,
    {
        Tsh { lines: Vec::new(), layout: None, raw_entries: Vec::new(), entries: Vec::new() }
    }

    /// Replaces the listing with `lines`, as the broker printed them, and
    /// decodes it. Gives the number of data rows that could not be decoded, or
    /// `MalformedSeparator`, with no records, when the separator line is missing
    /// or does not describe every column.
    pub fn load_lines(&mut self, lines: Vec<String>) -> (r: Result<usize, DecodeError>)
        ensures
            final(self)@.lines == views(lines@),
            r is Ok <==> listing_well_formed(views(lines@)),
            r matches Err(e) ==> e == DecodeError::MalformedSeparator && final(self)@.entries.len()
                == 0,
            r matches Ok(k) ==> final(self)@.entries == decoded_rows(
                data_rows(views(lines@)),
                listing_widths(views(lines@)),
            ) && k == skipped_rows(data_rows(views(lines@)), listing_widths(views(lines@))),
    {
        self.lines = lines;
        self.layout = None;
        self.raw_entries = Vec::new();
        self.entries = Vec::new();
        match self.parse_separators() {
            Ok(()) => {},
            Err(e) => {
                return Err(e);
            },
        }
        self.parse_raw_entries();
        Ok(self.parse_entries())
    }

    /// Reads the column layout from the separator line.
    fn parse_separators(&mut self) -> (r: Result<(), DecodeError>)
        ensures
            final(self).lines == old(self).lines,
            final(self).entries == old(self).entries,
            r is Ok <==> listing_well_formed(views(old(self).lines@)),
            r matches Err(e) ==> e == DecodeError::MalformedSeparator,
            r is Ok ==> (final(self).layout matches Some(l) && l@ == listing_widths(
                views(old(self).lines@),
            )),
    {
        if self.lines.len() <= Lines::Separators.to_usize() {
            return Err(DecodeError::MalformedSeparator);
        }
        let line = self.lines[Lines::Separators.to_usize()].as_str();
        match ColumnLayout::build(line) {
            Ok(l) => {
                self.layout = Some(l);
                Ok(())
            },
            Err(e) => Err(e),
        }
    }

    /// Keeps the lines after the separator line that are not blank.
    fn parse_raw_entries(&mut self)
        requires
            old(self).lines@.len() >= 2,
        ensures
            final(self).lines == old(self).lines,
            final(self).layout == old(self).layout,
            final(self).entries == old(self).entries,
            views(final(self).raw_entries@) == data_rows(views(old(self).lines@)),
    {
        let ghost lv = views(self.lines@);
        let ghost nonblank = |r: Seq<char>| trimmed(r).len() > 0;
        let ghost rest = lv.subrange(2, lv.len() as int);
        let mut raw: Vec<String> = Vec::new();
        let mut i: usize = Lines::FirstEntry.to_usize();
        proof {
            assert(rest.subrange(0, 0) =~= Seq::<Seq<char>>::empty());
            reveal(Seq::filter);
            assert(views(raw@) =~= rest.subrange(0, 0).filter(nonblank));
        }
        while i < self.lines.len()
            invariant
                lv == views(self.lines@),
                rest == lv.subrange(2, lv.len() as int),
                nonblank == (|r: Seq<char>| trimmed(r).len() > 0),
                2 <= i <= lv.len(),
                views(raw@) == rest.subrange(0, i - 2).filter(nonblank),
            decreases lv.len() - i,
        {
            let ghost before = raw@;
            let ghost row = lv[i as int];
            proof {
                assert(rest.subrange(0, i - 1) =~= rest.subrange(0, i - 2).push(row));
                rest.subrange(0, i - 2).lemma_filter_push(row, nonblank);
            }
            let t = trim(self.lines[i].as_str());
            if t.unicode_len() > 0 {
                raw.push(self.lines[i].clone());
                assert(views(raw@) =~= views(before).push(row));
            }
            i = i + 1;
        }
        assert(rest.subrange(0, lv.len() - 2) =~= rest);
        self.raw_entries = raw;
    }

    /// Decodes the data rows under the layout; gives how many were skipped.
    fn parse_entries(&mut self) -> (r: usize)
        requires
            old(self).layout is Some,
        ensures
            final(self).lines == old(self).lines,
            final(self).layout == old(self).layout,
            final(self).raw_entries == old(self).raw_entries,
            old(self).layout matches Some(l) && entry_views(final(self).entries@) == decoded_rows(
                views(old(self).raw_entries@),
                l@,
            ) && r == skipped_rows(views(old(self).raw_entries@), l@),
    {
        match &self.layout {
            Some(l) => {
                let (entries, skipped) = decode_batch(&self.raw_entries, l);
                self.entries = entries;
                skipped
            },
            None => 0,
        }
    }

    /// The decoded records, taken out of the listing.
    pub fn into_entries(self) -> (r: Vec<DatabaseEntry>)
        ensures
            entry_views(r@) == self@.entries,
    {
        self.entries
    }

    /// The decoded records, in the order of their rows.
    pub fn entries(&self) -> (r: &Vec<DatabaseEntry>)
        ensures
            entry_views(r@) == self@.entries,
    {
        &self.entries
    }
}

} // verus!
