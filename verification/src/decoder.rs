//! Decoding a header-first stream of tab-separated lines into a bounded table.
//!
//! The first line of a stream names the columns; every later line is one row.
//! A decoder takes the lines one at a time and stops asking for more as soon
//! as it holds as many rows as it was allowed, so that a caller reading from
//! a live stream can abandon the stream at that point.

use vstd::prelude::*;
use crate::fields::{join_with, split_fields, split_is_never_empty, split_on, split_then_join};

verus! {

/// The character that separates the cells of one line.
pub const FIELD_SEPARATOR: char = '\t';

/// A decoded result: the column names and the rows under them, every cell
/// carried as text. Rows are not checked against the number of columns.
#[derive(Debug)]
pub struct Table {
    pub columns: Vec<String>,
    pub rows: Vec<Vec<String>>,
}

/// What a `Table` holds, as plain sequences of characters.
pub ghost struct TableView {
    pub columns: Seq<Seq<char>>,
    pub rows: Seq<Seq<Seq<char>>>,
}

impl View for Table {
    type V = TableView;

    open spec fn view(&self) -> TableView {
        TableView { columns: self.columns.deep_view(), rows: self.rows.deep_view() }
    }
}

/// The column names that a stream of `lines` announces: the cells of its
/// first line, or none at all when the stream is empty.
pub open spec fn header_of(lines: Seq<Seq<char>>) -> Seq<Seq<char>> {
    if lines.len() == 0 {
        Seq::empty()
    } else {
        split_on(lines[0], FIELD_SEPARATOR)
    }
}

/// How many rows are kept from a stream of `lines` under a cap of `max_rows`:
/// every line after the first, but never more than the cap.
pub open spec fn row_count(lines: Seq<Seq<char>>, max_rows: nat) -> nat {
    if lines.len() == 0 {
        0
    } else if lines.len() - 1 <= max_rows {
        (lines.len() - 1) as nat
    } else {
        max_rows
    }
}

/// The rows kept from a stream of `lines`: the cells of the lines after the
/// first, in order, up to the cap.
pub open spec fn rows_of(lines: Seq<Seq<char>>, max_rows: nat) -> Seq<Seq<Seq<char>>> {
    Seq::new(row_count(lines, max_rows), |i: int| split_on(lines[i + 1], FIELD_SEPARATOR))
}

/// The table that a stream of `lines` decodes to under a cap of `max_rows`.
pub open spec fn decoded(lines: Seq<Seq<char>>, max_rows: nat) -> TableView {
    TableView { columns: header_of(lines), rows: rows_of(lines, max_rows) }
}

/// The state of a decoder between two lines.
pub ghost struct DecoderState {
    /// The most rows the decoder will ever hold.
    pub max_rows: nat,
    /// Whether the header line has been taken.
    pub started: bool,
    pub columns: Seq<Seq<char>>,
    pub rows: Seq<Seq<Seq<char>>>,
}

impl DecoderState {
    /// A decoder that has taken nothing yet.
    pub open spec fn initial(max_rows: nat) -> DecoderState {
        DecoderState { max_rows, started: false, columns: Seq::empty(), rows: Seq::empty() }
    }

    /// Whether the decoder still has use for another line. It always wants
    /// the header; after that it wants rows until it holds `max_rows` of them.
    pub open spec fn wants_line(self) -> bool {
        !self.started || self.rows.len() < self.max_rows
    }

    /// The state after `line` is offered. The first line becomes the header,
    /// a later one becomes a row, and a line offered to a decoder that wants
    /// none is dropped.
    pub open spec fn take(self, line: Seq<char>) -> DecoderState {
        if !self.started {
            DecoderState { started: true, columns: split_on(line, FIELD_SEPARATOR), ..self }
        } else if self.rows.len() < self.max_rows {
            DecoderState { rows: self.rows.push(split_on(line, FIELD_SEPARATOR)), ..self }
        } else {
            self
        }
    }

    /// The state after each of `lines` is offered in turn.
    pub open spec fn take_all(self, lines: Seq<Seq<char>>) -> DecoderState
        decreases lines.len(),
    {
        if lines.len() == 0 {
            self
        } else {
            self.take_all(lines.drop_last()).take(lines.last())
        }
    }

    /// The table held so far.
    pub open spec fn table(self) -> TableView {
        TableView { columns: self.columns, rows: self.rows }
    }
}

/// A streaming decoder. It never holds more rows than the cap it was made
/// with, and holds nothing before it has taken a header.
pub struct Decoder {
    max_rows: usize,
    started: bool,
    columns: Vec<String>,
    rows: Vec<Vec<String>>,
}

impl View for Decoder {
    type V = DecoderState;

    closed spec fn view(&self) -> DecoderState {
        DecoderState {
            max_rows: self.max_rows as nat,
            started: self.started,
            columns: self.columns.deep_view(),
            rows: self.rows.deep_view(),
        }
    }
}

impl Decoder {
    #[verifier::type_invariant]
    spec fn within_cap(self) -> bool {
        &&& self.rows.len() <= self.max_rows
        &&& !self.started ==> self.columns.len() == 0 && self.rows.len() == 0
    }

    /// A decoder that will keep at most `max_rows` rows.
    pub fn new(max_rows: usize) -> (decoder: Decoder)
        ensures
            decoder@ == DecoderState::initial(max_rows as nat),
    {
        let decoder = Decoder { max_rows, started: false, columns: Vec::new(), rows: Vec::new() };
        assert(decoder.columns.deep_view() =~= Seq::empty());
        assert(decoder.rows.deep_view() =~= Seq::empty());
        decoder
    }

    /// Whether another line should be read for this decoder. Once this is
    /// `false` the rest of the stream is of no use and can be abandoned.
    pub fn wants_line(&self) -> (wanted: bool)
        ensures
            wanted == self@.wants_line(),
            self@.rows.len() <= self@.max_rows,
    {
        proof {
            use_type_invariant(self);
        }
        !self.started || self.rows.len() < self.max_rows
    }

    /// Offers one line of the stream and returns the decoder that results.
    pub fn feed(self, line: &str) -> (next: Decoder)
        ensures
            next@ == self@.take(line@),
            next@.rows.len() <= next@.max_rows,
    {
        proof {
            use_type_invariant(&self);
        }
        let Decoder { max_rows, started, columns, rows } = self;
        if !started {
            Decoder { max_rows, started: true, columns: split_fields(line, FIELD_SEPARATOR), rows }
        } else if rows.len() < max_rows {
            let ghost before = rows.deep_view();
            let mut rows = rows;
            let row = split_fields(line, FIELD_SEPARATOR);
            rows.push(row);
            assert(rows.deep_view() =~= before.push(row.deep_view()));
            Decoder { max_rows, started, columns, rows }
        } else {
            Decoder { max_rows, started, columns, rows }
        }
    }

    /// Gives up the decoder for the table it holds.
    pub fn finish(self) -> (table: Table)
        ensures
            table@ == self@.table(),
            table.rows@.len() <= self@.max_rows,
    {
        proof {
            use_type_invariant(&self);
        }
        Table { columns: self.columns, rows: self.rows }
    }
}

/// Decodes a whole stream of `lines`, keeping at most `max_rows` rows. Lines
/// past the point where the cap is reached are not looked at.
pub fn decode_lines(lines: &[String], max_rows: usize) -> (table: Table)
    ensures
        table@ == decoded(lines.deep_view(), max_rows as nat),
        table.rows@.len() <= max_rows,
{
    let ghost all = lines.deep_view();
    let mut decoder = Decoder::new(max_rows);
    let mut taken: usize = 0;
    assert(all.take(0) =~= Seq::empty());
    while taken < lines.len() && decoder.wants_line()
        invariant
            all == lines.deep_view(),
            taken <= lines.len(),
            decoder@ == DecoderState::initial(max_rows as nat).take_all(all.take(taken as int)),
        decreases lines.len() - taken,
    {
        assert(all.take(taken + 1).drop_last() =~= all.take(taken as int));
        assert(all.take(taken + 1).last() == lines[taken as int]@);
        decoder = decoder.feed(lines[taken].as_str());
        taken = taken + 1;
    }
    proof {
        taking_all_lines_decodes(all.take(taken as int), max_rows as nat);
        if taken < lines.len() {
            lines_past_the_cap_are_ignored(all, max_rows as nat, taken as int);
        } else {
            assert(all.take(taken as int) =~= all);
        }
    }
    decoder.finish()
}

/// Offering the lines of a stream one by one to a fresh decoder leaves it
/// holding the table that the stream decodes to, whether or not the caller
/// stopped offering lines when the decoder wanted no more.
pub proof fn taking_all_lines_decodes(lines: Seq<Seq<char>>, max_rows: nat)
    ensures
        DecoderState::initial(max_rows).take_all(lines).table() == decoded(lines, max_rows),
        DecoderState::initial(max_rows).take_all(lines).started == (lines.len() > 0),
        DecoderState::initial(max_rows).take_all(lines).max_rows == max_rows,
    decreases lines.len(),
{
    if lines.len() > 0 {
        let earlier = lines.drop_last();
        taking_all_lines_decodes(earlier, max_rows);
        let before = DecoderState::initial(max_rows).take_all(earlier);
        let after = before.take(lines.last());
        assert(after.rows =~= rows_of(lines, max_rows));
        assert(after.columns == header_of(lines));
    } else {
        assert(rows_of(lines, max_rows) =~= Seq::empty());
    }
}

/// Offering lines in turn can be read from the front as well as from the
/// back: first the first line, then all the others.
pub proof fn take_all_from_front(state: DecoderState, lines: Seq<Seq<char>>)
    requires
        lines.len() > 0,
    ensures
        state.take_all(lines) == state.take(lines.first()).take_all(lines.drop_first()),
    decreases lines.len(),
{
    if lines.len() > 1 {
        let middle = lines.drop_last().drop_first();
        take_all_from_front(state, lines.drop_last());
        assert(lines.drop_last().first() == lines.first());
        assert(lines.drop_first().drop_last() =~= middle);
        assert(lines.drop_first().last() == lines.last());
        assert(state.take(lines.first()).take_all(lines.drop_first()) == state.take(
            lines.first(),
        ).take_all(middle).take(lines.last()));
    } else {
        assert(state.take_all(lines.drop_last()) == state);
        assert(state.take(lines.first()).take_all(lines.drop_first()) == state.take(
            lines.first(),
        ));
    }
}

/// A decoder that wants no line is not changed by any it is offered.
pub proof fn full_decoder_ignores_lines(state: DecoderState, lines: Seq<Seq<char>>)
    requires
        !state.wants_line(),
    ensures
        state.take_all(lines) == state,
    decreases lines.len(),
{
    if lines.len() > 0 {
        full_decoder_ignores_lines(state, lines.drop_last());
    }
}

/// A stream cut off at any point after the cap was reached decodes to the
/// same table as the whole stream: what lies past the cap changes nothing,
/// and nothing in the table tells that it was there.
pub proof fn lines_past_the_cap_are_ignored(lines: Seq<Seq<char>>, max_rows: nat, kept: int)
    requires
        max_rows + 1 <= kept <= lines.len(),
    ensures
        decoded(lines.take(kept), max_rows) == decoded(lines, max_rows),
{
    assert(rows_of(lines.take(kept), max_rows) =~= rows_of(lines, max_rows));
}

/// A decoded table never holds more rows than the cap, however many lines
/// the stream had.
pub proof fn rows_never_exceed_cap(lines: Seq<Seq<char>>, max_rows: nat)
    ensures
        decoded(lines, max_rows).rows.len() <= max_rows,
{
}

/// When a stream has no more data lines than the cap, every one of them is
/// a row of the table, in order, and the cells of each row put together again
/// with the separator are the line as it was received.
pub proof fn rows_complete_within_cap(lines: Seq<Seq<char>>, max_rows: nat)
    requires
        lines.len() <= max_rows + 1,
    ensures
        decoded(lines, max_rows).rows.len() == if lines.len() == 0 {
            0
        } else {
            lines.len() - 1
        },
        forall|i: int|
            0 <= i < decoded(lines, max_rows).rows.len() ==> {
                &&& #[trigger] decoded(lines, max_rows).rows[i] == split_on(
                    lines[i + 1],
                    FIELD_SEPARATOR,
                )
                &&& join_with(decoded(lines, max_rows).rows[i], FIELD_SEPARATOR) == lines[i + 1]
            },
{
    assert forall|i: int| 0 <= i < decoded(lines, max_rows).rows.len() implies join_with(
        #[trigger] decoded(lines, max_rows).rows[i],
        FIELD_SEPARATOR,
    ) == lines[i + 1] by {
        split_then_join(lines[i + 1], FIELD_SEPARATOR);
    }
}

/// A stream that ends after its header gives the header's cells as columns,
/// at least one of them, and no rows.
pub proof fn header_alone_gives_no_rows(header: Seq<char>, max_rows: nat)
    ensures
        decoded(seq![header], max_rows).columns == split_on(header, FIELD_SEPARATOR),
        decoded(seq![header], max_rows).columns.len() >= 1,
        decoded(seq![header], max_rows).rows == Seq::<Seq<Seq<char>>>::empty(),
{
    split_is_never_empty(header, FIELD_SEPARATOR);
    assert(decoded(seq![header], max_rows).rows =~= Seq::empty());
}

/// An empty stream gives a table without columns and without rows.
pub proof fn empty_stream_gives_empty_table(max_rows: nat)
    ensures
        decoded(Seq::empty(), max_rows).columns == Seq::<Seq<char>>::empty(),
        decoded(Seq::empty(), max_rows).rows == Seq::<Seq<Seq<char>>>::empty(),
{
    assert(decoded(Seq::empty(), max_rows).rows =~= Seq::empty());
}

} // verus!
