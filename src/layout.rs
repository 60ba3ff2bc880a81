//! Column layout of the broker's tabular listing: the columns, their order, and
//! the byte span of each as read from the separator line.
use vstd::prelude::*;
use vstd::string::*;
use vstd::utf8::*;
use crate::text::{
    all_white, lemma_boundary_concat, lemma_cut_is_boundary, lemma_encode_concat, lemma_pieces_append,
    lemma_pieces_step, lemma_pieces_without_sep, lemma_trimmed_pad, pieces, tokens, trim, trimmed,
};

verus! {

broadcast use vstd::utf8::group_utf8_lib;

/// Number of columns in the listing, in the order of [`Columns`].
pub const COLUMN_COUNT: usize = 9;

/// The byte that separates runs on the separator line: an ASCII space.
pub const SPACE: u8 = 32;

/// Why a line of the listing could not be decoded.
#[derive(Clone, Copy, Debug, PartialEq, Eq, Structural)]
pub enum DecodeError {
    /// The separator line does not hold one run per expected column.
    MalformedSeparator,
    /// A column's span ends past the end of the row.
    RowTooShort,
    /// A segment of the labels column holds no `=`.
    MalformedLabel,
    /// The column index is not one of the layout's columns.
    UnknownColumn,
    /// A column's span starts or ends inside a multi-byte character.
    SplitCharacter,
}

/// Lines of the listing with a fixed role; line 0 holds the column titles,
/// which are not read.
pub enum Lines {
    Separators,
    FirstEntry,
}

impl Lines {
    pub fn to_usize(&self) -> (r: usize)
        ensures
            r == match self {
                Lines::Separators => 1usize,
                Lines::FirstEntry => 2usize,
            },
    {
        match self {
            Lines::Separators => 1,
            Lines::FirstEntry => 2,
        }
    }
}

/// The columns of the listing, in the order in which they appear.
#[derive(Clone, Copy, Debug, PartialEq, Eq, Structural)]
pub enum Columns {
    Name,
    Description,
    Protocol,
    DatabaseType,
    Uri,
    AllowedUsers,
    DatabaseRoles,
    Labels,
    Connect,
}

impl Columns {
    /// Position of the column within a row.
    pub open spec fn index(self) -> nat {
        match self {
            Columns::Name => 0,
            Columns::Description => 1,
            Columns::Protocol => 2,
            Columns::DatabaseType => 3,
            Columns::Uri => 4,
            Columns::AllowedUsers => 5,
            Columns::DatabaseRoles => 6,
            Columns::Labels => 7,
            Columns::Connect => 8,
        }
    }

    pub fn to_usize(&self) -> (r: usize)
        ensures
            r == self.index(),
            r < COLUMN_COUNT,
    {
        match self {
            Columns::Name => 0,
            Columns::Description => 1,
            Columns::Protocol => 2,
            Columns::DatabaseType => 3,
            Columns::Uri => 4,
            Columns::AllowedUsers => 5,
            Columns::DatabaseRoles => 6,
            Columns::Labels => 7,
            Columns::Connect => 8,
        }
    }

    /// The column's title in the listing's header line.
    pub fn to_string(&self) -> (r: &'static str)
        ensures
            r@ == match self {
                Columns::Name => "Name"@,
                Columns::Description => "Description"@,
                Columns::Protocol => "Protocol"@,
                Columns::DatabaseType => "Database Type"@,
                Columns::Uri => "URI"@,
                Columns::AllowedUsers => "Allowed Users"@,
                Columns::DatabaseRoles => "Database Roles"@,
                Columns::Labels => "Labels"@,
                Columns::Connect => "Connect"@,
            },
    {
        match self {
            Columns::Name => "Name",
            Columns::Description => "Description",
            Columns::Protocol => "Protocol",
            Columns::DatabaseType => "Database Type",
            Columns::Uri => "URI",
            Columns::AllowedUsers => "Allowed Users",
            Columns::DatabaseRoles => "Database Roles",
            Columns::Labels => "Labels",
            Columns::Connect => "Connect",
        }
    }
}

/// Widths of the runs on a separator line: the lengths of its non-empty
/// pieces between spaces.
pub open spec fn run_widths(line: Seq<u8>) -> Seq<nat> {
    tokens(line, SPACE).map_values(|p: Seq<u8>| p.len())
}

/// Byte offset at which column `i` starts: the widths of all earlier columns,
/// each with the one space that follows it.
pub open spec fn column_start(widths: Seq<nat>, i: int) -> int
    decreases i,
{
    if i <= 0 || widths.len() < i {
        0
    } else {
        column_start(widths, i - 1) + widths[i - 1] + 1
    }
}

/// Byte offset just past the end of column `i`.
pub open spec fn column_end(widths: Seq<nat>, i: int) -> int {
    column_start(widths, i) + widths[i]
}

/// The characters that the bytes of `row` between `start` and `end` encode.
pub open spec fn byte_span(row: Seq<char>, start: int, end: int) -> Seq<char> {
    decode_utf8(encode_utf8(row).subrange(start, end))
}

/// What slicing column `i` out of `row` gives: its span's text without
/// surrounding whitespace, or why there is none.
pub open spec fn column_text(row: Seq<char>, widths: Seq<nat>, i: int) -> Result<Seq<char>, DecodeError> {
    let bytes = encode_utf8(row);
    if i < 0 || i >= widths.len() {
        Err(DecodeError::UnknownColumn)
    } else if column_end(widths, i) > bytes.len() {
        Err(DecodeError::RowTooShort)
    } else if !is_char_boundary(bytes, column_start(widths, i)) || !is_char_boundary(
        bytes,
        column_end(widths, i),
    ) {
        Err(DecodeError::SplitCharacter)
    } else {
        Ok(trimmed(byte_span(row, column_start(widths, i), column_end(widths, i))))
    }
}

pub open spec fn string_result(r: Result<String, DecodeError>) -> Result<Seq<char>, DecodeError> {
    match r {
        Ok(s) => Ok(s@),
        Err(e) => Err(e),
    }
}

/// Column offsets only grow.
pub proof fn lemma_column_start_monotonic(widths: Seq<nat>, i: int, j: int)
    requires
        0 <= i <= j <= widths.len(),
    ensures
        column_start(widths, i) + (j - i) <= column_start(widths, j),
        i < j ==> column_end(widths, i) < column_start(widths, j),
    decreases j - i,
{
    if i < j {
        lemma_column_start_monotonic(widths, i, j - 1);
        if i < j - 1 {
            lemma_column_start_monotonic(widths, i + 1, j - 1);
        }
    }
}

/// Every run of a separator line is at least one byte wide.
pub proof fn lemma_run_widths_positive(line: Seq<u8>)
    ensures
        forall|i: int| 0 <= i < run_widths(line).len() ==> #[trigger] run_widths(line)[i] > 0,
{
    broadcast use vstd::seq_lib::group_filter_ensures;

}

/// For every separator line, the columns that it describes start at strictly
/// increasing offsets, and their spans never overlap: each column is non-empty
/// and ends before any later column starts.
pub proof fn lemma_columns_ordered(line: Seq<u8>, i: int, j: int)
    requires
        0 <= i < j < run_widths(line).len(),
    ensures
        column_start(run_widths(line), i) < column_start(run_widths(line), j),
        column_start(run_widths(line), i) < column_end(run_widths(line), i),
        column_end(run_widths(line), i) < column_start(run_widths(line), j),
        column_start(run_widths(line), j) < column_end(run_widths(line), j),
{
    lemma_run_widths_positive(line);
    lemma_column_start_monotonic(run_widths(line), i, j);
}

/// `n` spaces.
pub open spec fn spaces(n: nat) -> Seq<char> {
    Seq::new(n, |_i: int| ' ')
}

/// `value` followed by spaces up to `width` bytes.
pub open spec fn padded(value: Seq<char>, width: nat) -> Seq<char> {
    value + spaces((width - encode_utf8(value).len()) as nat)
}

/// A row laid out as the broker lays out its listing: each value padded to its
/// column's width, one space between columns.
pub open spec fn encode_row(values: Seq<Seq<char>>, widths: Seq<nat>) -> Seq<char>
    decreases values.len(),
{
    if values.len() == 0 {
        Seq::empty()
    } else if values.len() == 1 {
        padded(values[0], widths[0])
    } else {
        encode_row(values.drop_last(), widths.drop_last()) + seq![' '] + padded(
            values.last(),
            widths.last(),
        )
    }
}

/// One value per column, none wider in bytes than its column.
pub open spec fn values_fit(values: Seq<Seq<char>>, widths: Seq<nat>) -> bool {
    &&& values.len() == widths.len()
    &&& forall|i: int| 0 <= i < values.len() ==> encode_utf8(#[trigger] values[i]).len() <= widths[i]
}

proof fn lemma_padded_encoding(value: Seq<char>, width: nat)
    requires
        encode_utf8(value).len() <= width,
    ensures
        encode_utf8(padded(value, width)).len() == width,
        all_white(spaces((width - encode_utf8(value).len()) as nat)),
{
    let sp = spaces((width - encode_utf8(value).len()) as nat);
    assert(is_ascii_chars(sp));
    lemma_encode_concat(value, sp);
}

proof fn lemma_encode_row_spans(values: Seq<Seq<char>>, widths: Seq<nat>)
    requires
        values_fit(values, widths),
        values.len() >= 1,
    ensures
        encode_utf8(encode_row(values, widths)).len() == column_end(widths, values.len() - 1),
        forall|i: int|
            #![trigger column_start(widths, i)]
            0 <= i < values.len() ==> {
                &&& encode_utf8(encode_row(values, widths)).subrange(
                    column_start(widths, i),
                    column_end(widths, i),
                ) == encode_utf8(padded(values[i], widths[i]))
                &&& is_char_boundary(
                    encode_utf8(encode_row(values, widths)),
                    column_start(widths, i),
                )
                &&& is_char_boundary(
                    encode_utf8(encode_row(values, widths)),
                    column_end(widths, i),
                )
            },
    decreases values.len(),
{
    broadcast use encode_utf8_valid_utf8;

    let n = values.len() as int;
    let row = encode_row(values, widths);
    let bytes = encode_utf8(row);
    lemma_padded_encoding(values[n - 1], widths[n - 1]);
    if n == 1 {
        is_char_boundary_start_end_of_seq(bytes);
        assert(bytes.subrange(0, bytes.len() as int) =~= bytes);
    } else {
        let vp = values.drop_last();
        let wp = widths.drop_last();
        assert(widths =~= wp.push(widths[n - 1]));
        assert forall|i: int| 0 <= i < vp.len() implies encode_utf8(#[trigger] vp[i]).len()
            <= wp[i] by {
            assert(vp[i] == values[i]);
        }
        lemma_encode_row_spans(vp, wp);
        let prev = encode_row(vp, wp);
        let last = padded(values[n - 1], widths[n - 1]);
        let front = prev + seq![' '];
        assert(row == front + last);
        assert(is_ascii_chars(seq![' ']));
        lemma_encode_concat(prev, seq![' ']);
        lemma_encode_concat(front, last);
        lemma_column_start_push(wp, widths[n - 1], n - 1);
        assert(column_start(widths, n - 1) == encode_utf8(front).len());
        assert(bytes.subrange(column_start(widths, n - 1), column_end(widths, n - 1)) =~= encode_utf8(
            last,
        ));
        lemma_cut_is_boundary(front, last);
        is_char_boundary_start_end_of_seq(bytes);
        assert(prev + (seq![' '] + last) =~= row);
        assert forall|i: int| 0 <= i < n - 1 implies {
            &&& bytes.subrange(#[trigger] column_start(widths, i), column_end(widths, i))
                == encode_utf8(padded(values[i], widths[i]))
            &&& is_char_boundary(bytes, column_start(widths, i))
            &&& is_char_boundary(bytes, column_end(widths, i))
        } by {
            lemma_column_start_push(wp, widths[n - 1], i);
            assert(vp[i] == values[i]);
            assert(wp[i] == widths[i]);
            lemma_column_start_monotonic(wp, i, n - 2);
            lemma_encode_concat(prev, seq![' '] + last);
            lemma_boundary_concat(prev, seq![' '] + last, column_start(widths, i));
            lemma_boundary_concat(prev, seq![' '] + last, column_end(widths, i));
            assert(bytes.subrange(column_start(widths, i), column_end(widths, i)) =~= encode_utf8(
                prev,
            ).subrange(column_start(widths, i), column_end(widths, i)));
        }
    }
}

/// A row laid out from values that fit their columns slices back into those
/// values: each column's text is its value, trimmed.
pub proof fn lemma_round_trip(values: Seq<Seq<char>>, widths: Seq<nat>, i: int)
    requires
        values_fit(values, widths),
        0 <= i < values.len(),
    ensures
        column_text(encode_row(values, widths), widths, i) == Ok::<Seq<char>, DecodeError>(
            trimmed(values[i]),
        ),
{
    let n = values.len() as int;
    lemma_encode_row_spans(values, widths);
    lemma_column_start_monotonic(widths, i, n - 1);
    let row = encode_row(values, widths);
    let p = padded(values[i], widths[i]);
    assert(encode_utf8(row).subrange(column_start(widths, i), column_end(widths, i))
        == encode_utf8(p));
    encode_utf8_decode_utf8(p);
    lemma_padded_encoding(values[i], widths[i]);
    lemma_trimmed_pad(values[i], spaces((widths[i] - encode_utf8(values[i]).len()) as nat));
}

/// A run of a separator line: at least one byte, no space.
pub open spec fn is_run(r: Seq<u8>) -> bool {
    r.len() > 0 && forall|i: int| 0 <= i < r.len() ==> r[i] != SPACE
}

/// A separator line made of `runs`, one space between each two.
pub open spec fn joined_runs(runs: Seq<Seq<u8>>) -> Seq<u8>
    decreases runs.len(),
{
    if runs.len() == 0 {
        Seq::empty()
    } else if runs.len() == 1 {
        runs[0]
    } else {
        joined_runs(runs.drop_last()) + seq![SPACE] + runs.last()
    }
}

proof fn lemma_joined_pieces(runs: Seq<Seq<u8>>)
    requires
        runs.len() > 0,
        forall|i: int| 0 <= i < runs.len() ==> is_run(#[trigger] runs[i]),
    ensures
        pieces(joined_runs(runs), SPACE) == runs,
    decreases runs.len(),
{
    if runs.len() == 1 {
        lemma_pieces_without_sep(runs[0], SPACE);
        assert(seq![runs[0]] =~= runs);
    } else {
        let p = runs.drop_last();
        assert forall|i: int| 0 <= i < p.len() implies is_run(#[trigger] p[i]) by {
            assert(p[i] == runs[i]);
        }
        lemma_joined_pieces(p);
        assert(is_run(runs[runs.len() - 1]));
        lemma_pieces_append(joined_runs(p), SPACE, runs.last());
        assert(p.push(runs.last()) =~= runs);
    }
}

proof fn lemma_filter_keeps_all(s: Seq<Seq<u8>>)
    requires
        forall|i: int| 0 <= i < s.len() ==> (#[trigger] s[i]).len() > 0,
    ensures
        s.filter(|p: Seq<u8>| p.len() > 0) == s,
    decreases s.len(),
{
    reveal(Seq::filter);
    if s.len() > 0 {
        let q = s.drop_last();
        assert forall|i: int| 0 <= i < q.len() implies (#[trigger] q[i]).len() > 0 by {
            assert(q[i] == s[i]);
        }
        lemma_filter_keeps_all(q);
        assert(s[s.len() - 1].len() > 0);
        assert(q.push(s.last()) =~= s);
    }
}

/// A separator line made of runs joined by single spaces describes one column
/// per run, in order, each as wide as its run; `ColumnLayout::build` gives
/// exactly these widths. Their offsets strictly increase and their spans
/// never overlap.
pub proof fn lemma_separator_runs(runs: Seq<Seq<u8>>)
    requires
        runs.len() > 0,
        forall|i: int| 0 <= i < runs.len() ==> is_run(#[trigger] runs[i]),
    ensures
        run_widths(joined_runs(runs)).len() == runs.len(),
        forall|i: int|
            0 <= i < runs.len() ==> #[trigger] run_widths(joined_runs(runs))[i] == runs[i].len()
                && runs[i].len() > 0,
        forall|i: int, j: int|
            #![trigger column_end(run_widths(joined_runs(runs)), i),
                column_start(run_widths(joined_runs(runs)), j)]
            0 <= i < j < runs.len() ==> column_end(run_widths(joined_runs(runs)), i)
                < column_start(run_widths(joined_runs(runs)), j),
{
    lemma_joined_pieces(runs);
    lemma_filter_keeps_all(runs);
    let line = joined_runs(runs);
    assert forall|i: int| 0 <= i < runs.len() implies #[trigger] run_widths(line)[i]
        == runs[i].len() && runs[i].len() > 0 by {
        assert(is_run(runs[i]));
    }
    assert forall|i: int, j: int| 0 <= i < j < runs.len() implies #[trigger] column_end(
        run_widths(line),
        i,
    ) < #[trigger] column_start(run_widths(line), j) by {
        lemma_columns_ordered(line, i, j);
    }
}

/// The layout of a listing: the width of each column, in order.
pub struct ColumnLayout {
    widths: Vec<usize>,
}

/// Machine widths read as natural numbers.
pub open spec fn nat_widths(v: Seq<usize>) -> Seq<nat> {
    v.map_values(|w: usize| w as nat)
}

impl View for ColumnLayout {
    type V = Seq<nat>;

    closed spec fn view(&self) -> Seq<nat> {
        nat_widths(self.widths@)
    }
}

proof fn lemma_column_start_push(widths: Seq<nat>, x: nat, i: int)
    requires
        0 <= i <= widths.len(),
    ensures
        column_start(widths.push(x), i) == column_start(widths, i),
    decreases i,
{
    if i > 0 {
        lemma_column_start_push(widths, x, i - 1);
    }
}

/// Offsets are measured in bytes, and the text between two character
/// boundaries of a row has its own boundaries where the row has them.
proof fn lemma_boundary_in_prefix(b: Seq<u8>, i: int, e: int)
    requires
        valid_utf8(b),
        0 <= i <= e <= b.len(),
        is_char_boundary(b, i),
        is_char_boundary(b, e),
    ensures
        valid_utf8(b.subrange(0, e)),
        is_char_boundary(b.subrange(0, e), i),
{
    let p = b.subrange(0, e);
    valid_utf8_split(b, e);
    if i == e {
        is_char_boundary_start_end_of_seq(p);
    } else if i > 0 {
        is_char_boundary_iff_not_is_continuation_byte(b, i);
        is_char_boundary_iff_not_is_continuation_byte(p, i);
    }
}

impl ColumnLayout {
    #[verifier::type_invariant]
    spec fn inv(self) -> bool {
        &&& forall|i: int| 0 <= i < self@.len() ==> #[trigger] self@[i] > 0
        &&& column_start(self@, self@.len() as int) <= usize::MAX + 1
    }

    /// Reads the layout from a separator line that holds one run per column,
    /// `column_count` of them.
    pub fn build_for(line: &str, column_count: usize) -> (r: Result<ColumnLayout, DecodeError>)
        ensures
            r is Ok <==> run_widths(line.spec_bytes()).len() == column_count,
            r matches Ok(l) ==> l@ == run_widths(line.spec_bytes()),
            r matches Err(e) ==> e == DecodeError::MalformedSeparator,
    {
        let b = line.as_bytes();
        let n = b.len();
        let mut widths: Vec<usize> = Vec::new();
        let mut cur: usize = 0;
        let mut i: usize = 0;
        let ghost mut done: Seq<Seq<u8>> = Seq::empty();
        let ghost nonempty = |p: Seq<u8>| p.len() > 0;
        let ghost len_of = |p: Seq<u8>| p.len();
        proof {
            assert(b@.subrange(0, 0) =~= Seq::<u8>::empty());
            assert(pieces(b@.subrange(0, 0), SPACE) =~= done.push(b@.subrange(0, 0)));
            reveal(Seq::filter);
            assert(nat_widths(widths@) =~= done.filter(nonempty).map_values(len_of));
        }
        while i < n
            invariant
                b@ == line.spec_bytes(),
                n == b@.len(),
                cur <= i <= n,
                nonempty == (|p: Seq<u8>| p.len() > 0),
                len_of == (|p: Seq<u8>| p.len()),
                pieces(b@.subrange(0, i as int), SPACE) == done.push(b@.subrange(i - cur, i as int)),
                nat_widths(widths@) == done.filter(nonempty).map_values(len_of),
                forall|k: int| 0 <= k < widths@.len() ==> #[trigger] widths@[k] > 0,
                column_start(nat_widths(widths@), widths@.len() as int) + cur <= i,
            decreases n - i,
        {
            proof {
                lemma_pieces_step(b@, SPACE, i as int, done, i - cur);
            }
            if b[i] == SPACE {
                let ghost piece = b@.subrange(i - cur, i as int);
                let ghost before = widths@;
                proof {
                    done.lemma_filter_push(piece, nonempty);
                    lemma_column_start_push(nat_widths(before), cur as nat, before.len() as int);
                }
                if cur > 0 {
                    widths.push(cur);
                    assert(nat_widths(widths@) =~= nat_widths(before).push(cur as nat));
                    assert(done.filter(nonempty).push(piece).map_values(len_of) =~= done.filter(
                        nonempty,
                    ).map_values(len_of).push(piece.len()));
                }
                proof {
                    done = done.push(piece);
                }
                cur = 0;
            } else {
                cur = cur + 1;
            }
            i = i + 1;
        }
        proof {
            assert(b@.subrange(0, n as int) =~= b@);
        }
        let ghost piece = b@.subrange(n - cur, n as int);
        let ghost before = widths@;
        proof {
            done.lemma_filter_push(piece, nonempty);
            lemma_column_start_push(nat_widths(before), cur as nat, before.len() as int);
        }
        if cur > 0 {
            widths.push(cur);
            assert(nat_widths(widths@) =~= nat_widths(before).push(cur as nat));
            assert(done.filter(nonempty).push(piece).map_values(len_of) =~= done.filter(
                nonempty,
            ).map_values(len_of).push(piece.len()));
        }
        assert(nat_widths(widths@) == run_widths(line.spec_bytes()));
        if widths.len() != column_count {
            Err(DecodeError::MalformedSeparator)
        } else {
            Ok(ColumnLayout { widths })
        }
    }

    /// Reads the layout of the listing's columns from its separator line.
    pub fn build(line: &str) -> (r: Result<ColumnLayout, DecodeError>)
        ensures
            r is Ok <==> run_widths(line.spec_bytes()).len() == COLUMN_COUNT,
            r matches Ok(l) ==> l@ == run_widths(line.spec_bytes()),
            r matches Err(e) ==> e == DecodeError::MalformedSeparator,
    {
        ColumnLayout::build_for(line, COLUMN_COUNT)
    }

    /// Number of columns.
    pub fn len(&self) -> (r: usize)
        ensures
            r == self@.len(),
    {
        self.widths.len()
    }

    /// The byte range of column `column_index`, end excluded.
    pub fn bounds(&self, column_index: usize) -> (r: Result<(usize, usize), DecodeError>)
        ensures
            column_index < self@.len() ==> (r matches Ok(b) && b.0 == column_start(
                self@,
                column_index as int,
            ) && b.1 == column_end(self@, column_index as int)),
            column_index >= self@.len() ==> r == Err::<(usize, usize), DecodeError>(
                DecodeError::UnknownColumn,
            ),
    {
        proof {
            use_type_invariant(self);
        }
        if column_index >= self.widths.len() {
            return Err(DecodeError::UnknownColumn);
        }
        let mut start: usize = 0;
        let mut j: usize = 0;
        while j < column_index
            invariant
                column_index < self@.len(),
                self@.len() == self.widths@.len(),
                j <= column_index,
                start == column_start(self@, j as int),
                column_start(self@, self@.len() as int) <= usize::MAX + 1,
            decreases column_index - j,
        {
            proof {
                lemma_column_start_monotonic(self@, j + 1, self@.len() as int);
            }
            start = start + self.widths[j] + 1;
            j = j + 1;
        }
        proof {
            lemma_column_start_monotonic(self@, column_index as int, self@.len() as int);
        }
        Ok((start, start + self.widths[column_index]))
    }

    /// The text of one column of `row`, without surrounding whitespace.
    pub fn field(&self, row: &str, column_index: usize) -> (r: Result<String, DecodeError>)
        ensures
            string_result(r) == column_text(row@, self@, column_index as int),
    {
        let (start, end) = match self.bounds(column_index) {
            Ok(b) => b,
            Err(e) => {
                return Err(e);
            },
        };
        if end > row.as_bytes().len() {
            return Err(DecodeError::RowTooShort);
        }
        if !row.is_char_boundary(start) || !row.is_char_boundary(end) {
            return Err(DecodeError::SplitCharacter);
        }
        let ghost bytes = row.spec_bytes();
        proof {
            lemma_column_start_monotonic(self@, column_index as int, column_index as int);
            lemma_boundary_in_prefix(bytes, start as int, end as int);
        }
        let (head, _) = row.split_at(end);
        let (_, piece) = head.split_at(start);
        proof {
            assert(piece.spec_bytes() =~= bytes.subrange(start as int, end as int));
            encode_utf8_decode_utf8(piece@);
        }
        Ok(trim(piece))
    }
}

} // verus!
