//! One query from submission to response.
//!
//! The gateway does no input or output of its own. A session is told what
//! happened on the stream of results (a line came, the stream ended, something
//! failed) and answers what to do next: read another line, or stop reading
//! and send a response. Whoever drives it performs the reads.

use vstd::prelude::*;
use crate::decoder::{
    decode_lines, decoded, empty_stream_gives_empty_table, full_decoder_ignores_lines,
    header_alone_gives_no_rows, rows_complete_within_cap, take_all_from_front,
    taking_all_lines_decodes, Decoder, DecoderState, FIELD_SEPARATOR,
};
use crate::fields::{join_with, split_on};
use crate::limit::{limited, limited_copy, MAX_ROWS};
use crate::response::{
    failure_of, respond, response_to, success_of, QueryRequest, QueryResponse, ResponseView,
};

verus! {

/// What is derived from a request before anything is sent.
#[derive(Debug)]
pub struct Submission {
    /// The statement to send to the database: the one submitted, character
    /// for character.
    pub statement: String,
    /// The limit-augmented copy of the statement. It is not sent.
    pub limited: String,
}

/// What became of one attempt to get the next line of a result.
#[derive(Debug)]
pub enum Event {
    /// The stream gave one more line.
    Line(String),
    /// The stream ended.
    End,
    /// The query could not be started, or reading its result failed; the
    /// message says why.
    Failed(String),
}

/// An `Event`, its text as plain sequences of characters.
pub ghost enum EventView {
    Line(Seq<char>),
    End,
    Failed(Seq<char>),
}

impl View for Event {
    type V = EventView;

    open spec fn view(&self) -> EventView {
        match self {
            Event::Line(line) => EventView::Line(line@),
            Event::End => EventView::End,
            Event::Failed(message) => EventView::Failed(message@),
        }
    }
}

/// What a session asks for after an event.
pub enum Step {
    /// Read the next line and come back with what happened.
    Read(Session),
    /// Abandon the stream and send this response.
    Reply(QueryResponse),
}

/// The response that `event` brings about in a session whose decoder is in
/// `state`, if it brings one about. A failure ends the query with its message
/// and nothing of what was read; the end of the stream ends it with the table
/// read so far; a line ends it when the table is full with it.
pub open spec fn reply_after(state: DecoderState, event: EventView) -> Option<ResponseView> {
    match event {
        EventView::Line(line) => if state.take(line).wants_line() {
            None
        } else {
            Some(success_of(state.take(line).table()))
        },
        EventView::End => Some(success_of(state.table())),
        EventView::Failed(message) => Some(failure_of(message)),
    }
}

/// The decoder state in which `event` leaves a session.
pub open spec fn state_after(state: DecoderState, event: EventView) -> DecoderState {
    match event {
        EventView::Line(line) => state.take(line),
        _ => state,
    }
}

/// The response that a session starting in `state` reaches when it is told
/// `events` in turn, or `None` if it is still reading after the last of them.
/// Events after the one that brought the response are never looked at.
pub open spec fn outcome_of(state: DecoderState, events: Seq<EventView>) -> Option<ResponseView>
    decreases events.len(),
{
    if events.len() == 0 {
        None
    } else {
        match reply_after(state, events.first()) {
            Some(response) => Some(response),
            None => outcome_of(state_after(state, events.first()), events.drop_first()),
        }
    }
}

/// The events of a stream that gives each of `lines` in turn.
pub open spec fn line_events(lines: Seq<Seq<char>>) -> Seq<EventView> {
    Seq::new(lines.len(), |i: int| EventView::Line(lines[i]))
}

/// A query in progress: the statement is out and the result is being read.
/// A session exists only while another line is wanted.
pub struct Session {
    decoder: Decoder,
}

impl View for Session {
    type V = DecoderState;

    closed spec fn view(&self) -> DecoderState {
        self.decoder@
    }
}

impl Session {
    #[verifier::type_invariant]
    spec fn reading(self) -> bool {
        &&& self.decoder@.wants_line()
        &&& self.decoder@.max_rows == MAX_ROWS
    }

    /// Starts on a request: says what to send, and gives the session that
    /// waits for the first line of the result.
    pub fn begin(request: &QueryRequest) -> (begun: (Session, Submission))
        ensures
            begun.0@ == DecoderState::initial(MAX_ROWS as nat),
            begun.1.statement@ == request.sql@,
            begun.1.limited@ == limited(request.sql@),
    {
        let submission = Submission {
            statement: request.sql.clone(),
            limited: limited_copy(request.sql.as_str()),
        };
        (Session { decoder: Decoder::new(MAX_ROWS) }, submission)
    }

    /// Tells the session what happened and learns what to do next.
    pub fn advance(self, event: Event) -> (step: Step)
        ensures
            match step {
                Step::Read(next) => {
                    &&& reply_after(self@, event@) is None
                    &&& next@ == state_after(self@, event@)
                },
                Step::Reply(response) => {
                    &&& reply_after(self@, event@) == Some(response@)
                    &&& response.rows@.len() <= MAX_ROWS
                    &&& response.error is Some <==> event is Failed
                    &&& event is Failed ==> response.columns@.len() == 0 && response.rows@.len()
                        == 0
                },
            },
    {
        proof {
            use_type_invariant(&self);
        }
        match event {
            Event::Line(line) => {
                let decoder = self.decoder.feed(line.as_str());
                if decoder.wants_line() {
                    Step::Read(Session { decoder })
                } else {
                    Step::Reply(QueryResponse::success(decoder.finish()))
                }
            },
            Event::End => Step::Reply(QueryResponse::success(self.decoder.finish())),
            Event::Failed(message) => Step::Reply(QueryResponse::failure(message)),
        }
    }
}

/// Answers a query whose result, or whose failure, is already at hand: the
/// response to the decoded lines, or the one that carries the message.
pub fn answer(outcome: Result<Vec<String>, String>) -> (response: QueryResponse)
    ensures
        response@ == match outcome {
            Ok(lines) => response_to_lines(lines.deep_view()),
            Err(message) => failure_of(message@),
        },
        response.rows@.len() <= MAX_ROWS,
        outcome is Err <==> response.error is Some,
        outcome is Err ==> response.columns@.len() == 0 && response.rows@.len() == 0,
{
    match outcome {
        Ok(lines) => {
            let table = decode_lines(lines.as_slice(), MAX_ROWS);
            respond(Ok(table))
        },
        Err(message) => respond(Err(message)),
    }
}

/// The response to a query whose result was the stream of `lines`.
pub open spec fn response_to_lines(lines: Seq<Seq<char>>) -> ResponseView {
    response_to(Ok(decoded(lines, MAX_ROWS as nat)))
}

/// A successful response never holds more rows than the cap, however many
/// the database gave.
pub proof fn successful_response_is_capped(lines: Seq<Seq<char>>)
    ensures
        response_to_lines(lines).rows.len() <= MAX_ROWS,
        response_to_lines(lines).error is None,
{
}

/// When the database gave no more rows than the cap, the response holds
/// every one of them, in order, and the cells of each put together again
/// with tabs are the line that the database sent.
pub proof fn response_holds_every_row_within_cap(lines: Seq<Seq<char>>)
    requires
        lines.len() <= MAX_ROWS + 1,
    ensures
        response_to_lines(lines).rows.len() == if lines.len() == 0 {
            0
        } else {
            lines.len() - 1
        },
        forall|i: int|
            0 <= i < response_to_lines(lines).rows.len() ==> {
                &&& #[trigger] response_to_lines(lines).rows[i] == split_on(
                    lines[i + 1],
                    FIELD_SEPARATOR,
                )
                &&& join_with(response_to_lines(lines).rows[i], FIELD_SEPARATOR) == lines[i + 1]
            },
{
    rows_complete_within_cap(lines, MAX_ROWS as nat);
    assert(response_to_lines(lines).rows == decoded(lines, MAX_ROWS as nat).rows);
}

/// A result that is a header and nothing more gives a response with the
/// header's cells as columns, no rows and no error.
pub proof fn response_to_header_alone(header: Seq<char>)
    ensures
        response_to_lines(seq![header]).columns == split_on(header, FIELD_SEPARATOR),
        response_to_lines(seq![header]).columns.len() >= 1,
        response_to_lines(seq![header]).rows == Seq::<Seq<Seq<char>>>::empty(),
        response_to_lines(seq![header]).error is None,
{
    header_alone_gives_no_rows(header, MAX_ROWS as nat);
}

/// A result without any line, not even a header, gives a response without
/// columns, without rows and without an error.
pub proof fn response_to_nothing()
    ensures
        response_to_lines(Seq::empty()).columns == Seq::<Seq<char>>::empty(),
        response_to_lines(Seq::empty()).rows == Seq::<Seq<Seq<char>>>::empty(),
        response_to_lines(Seq::empty()).error is None,
{
    empty_stream_gives_empty_table(MAX_ROWS as nat);
}

/// A session that is given every line of a stream and then its end replies
/// with the table that the stream decodes to. When the stream holds more
/// rows than the cap, the reply comes as soon as the cap is reached, and it
/// is the same.
pub proof fn complete_stream_is_decoded(lines: Seq<Seq<char>>)
    ensures
        outcome_of(
            DecoderState::initial(MAX_ROWS as nat),
            line_events(lines).push(EventView::End),
        ) == Some(response_to_lines(lines)),
{
    let start = DecoderState::initial(MAX_ROWS as nat);
    end_replies_with_lines_taken(start, lines);
    taking_all_lines_decodes(lines, MAX_ROWS as nat);
}

/// From any state that wants a line, lines followed by the end of the stream
/// bring the table that holds those lines.
pub proof fn end_replies_with_lines_taken(state: DecoderState, lines: Seq<Seq<char>>)
    requires
        state.wants_line(),
    ensures
        outcome_of(state, line_events(lines).push(EventView::End)) == Some(
            success_of(state.take_all(lines).table()),
        ),
    decreases lines.len(),
{
    let events = line_events(lines).push(EventView::End);
    if lines.len() > 0 {
        let next = state.take(lines.first());
        let rest = lines.drop_first();
        assert(events.first() == EventView::Line(lines.first()));
        assert(events.drop_first() =~= line_events(rest).push(EventView::End));
        take_all_from_front(state, lines);
        if next.wants_line() {
            end_replies_with_lines_taken(next, rest);
        } else {
            full_decoder_ignores_lines(next, rest);
        }
    } else {
        assert(events.first() == EventView::End);
    }
}

/// A failure while the result is still being read ends the query with the
/// failure's message alone: whatever lines came before it, the response has
/// no columns and no rows.
pub proof fn failure_discards_what_was_read(lines: Seq<Seq<char>>, message: Seq<char>)
    requires
        lines.len() <= MAX_ROWS,
    ensures
        outcome_of(
            DecoderState::initial(MAX_ROWS as nat),
            line_events(lines).push(EventView::Failed(message)),
        ) == Some(failure_of(message)),
        failure_of(message).columns.len() == 0,
        failure_of(message).rows.len() == 0,
        failure_of(message).error is Some,
{
    let start = DecoderState::initial(MAX_ROWS as nat);
    assert forall|k: int| 0 <= k <= lines.len() implies #[trigger] start.take_all(
        lines.take(k),
    ).wants_line() by {
        taking_all_lines_decodes(lines.take(k), MAX_ROWS as nat);
    }
    failure_replies_with_message(start, lines, message);
}

/// From a state that wants a line and goes on wanting one after each of
/// `lines`, those lines followed by a failure bring the failure's message.
pub proof fn failure_replies_with_message(
    state: DecoderState,
    lines: Seq<Seq<char>>,
    message: Seq<char>,
)
    requires
        forall|k: int| 0 <= k <= lines.len() ==> #[trigger] state.take_all(
            lines.take(k),
        ).wants_line(),
    ensures
        outcome_of(state, line_events(lines).push(EventView::Failed(message))) == Some(
            failure_of(message),
        ),
    decreases lines.len(),
{
    let events = line_events(lines).push(EventView::Failed(message));
    if lines.len() > 0 {
        let next = state.take(lines.first());
        let rest = lines.drop_first();
        assert(events.first() == EventView::Line(lines.first()));
        assert(events.drop_first() =~= line_events(rest).push(EventView::Failed(message)));
        assert forall|k: int| 0 <= k <= rest.len() implies #[trigger] next.take_all(
            rest.take(k),
        ).wants_line() by {
            take_all_from_front(state, lines.take(k + 1));
            assert(lines.take(k + 1).first() == lines.first());
            assert(lines.take(k + 1).drop_first() =~= rest.take(k));
            assert(state.take_all(lines.take(k + 1)).wants_line());
        }
        assert(next.wants_line()) by {
            assert(rest.take(0) =~= Seq::empty());
            assert(next.take_all(rest.take(0)) == next);
        }
        failure_replies_with_message(next, rest, message);
    } else {
        assert(events.first() == EventView::Failed(message));
    }
}

/// Whatever a session is told, and in whatever order, a response it reaches
/// never holds more rows than the cap.
pub proof fn response_never_exceeds_cap(state: DecoderState, events: Seq<EventView>)
    requires
        state.rows.len() <= state.max_rows,
    ensures
        outcome_of(state, events) matches Some(response) ==> response.rows.len()
            <= state.max_rows,
    decreases events.len(),
{
    if events.len() > 0 && reply_after(state, events.first()) is None {
        response_never_exceeds_cap(state_after(state, events.first()), events.drop_first());
    }
}

} // verus!
