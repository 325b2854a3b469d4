//! The request a client submits and the uniform response it gets back.

use vstd::prelude::*;
use crate::decoder::{Table, TableView};

verus! {

/// A submitted query: the statement as the client wrote it.
#[derive(Debug)]
pub struct QueryRequest {
    pub sql: String,
}

/// The answer to a query, successful or not. A failed query carries its
/// message and neither columns nor rows.
#[derive(Debug)]
pub struct QueryResponse {
    pub columns: Vec<String>,
    pub rows: Vec<Vec<String>>,
    pub error: Option<String>,
}

/// What a `QueryResponse` holds, as plain sequences of characters.
pub ghost struct ResponseView {
    pub columns: Seq<Seq<char>>,
    pub rows: Seq<Seq<Seq<char>>>,
    pub error: Option<Seq<char>>,
}

impl View for QueryResponse {
    type V = ResponseView;

    open spec fn view(&self) -> ResponseView {
        ResponseView {
            columns: self.columns.deep_view(),
            rows: self.rows.deep_view(),
            error: match self.error {
                Some(message) => Some(message@),
                None => None,
            },
        }
    }
}

/// The response to a query that gave `table`.
pub open spec fn success_of(table: TableView) -> ResponseView {
    ResponseView { columns: table.columns, rows: table.rows, error: None }
}

/// The response to a query that failed with `message`.
pub open spec fn failure_of(message: Seq<char>) -> ResponseView {
    ResponseView { columns: Seq::empty(), rows: Seq::empty(), error: Some(message) }
}

/// The response to the outcome of a query, whichever it was.
pub open spec fn response_to(outcome: Result<TableView, Seq<char>>) -> ResponseView {
    match outcome {
        Ok(table) => success_of(table),
        Err(message) => failure_of(message),
    }
}

impl QueryResponse {
    /// Wraps the table of a successful query.
    pub fn success(table: Table) -> (response: QueryResponse)
        ensures
            response@ == success_of(table@),
            response.columns == table.columns,
            response.rows == table.rows,
            response.error is None,
    {
        QueryResponse { columns: table.columns, rows: table.rows, error: None }
    }

    /// Reports a failed query: the message as it came, no columns, no rows.
    pub fn failure(message: String) -> (response: QueryResponse)
        ensures
            response@ == failure_of(message@),
            response.error is Some,
            response.columns@.len() == 0,
            response.rows@.len() == 0,
    {
        let response = QueryResponse { columns: Vec::new(), rows: Vec::new(), error: Some(message) };
        assert(response.columns.deep_view() =~= Seq::empty());
        assert(response.rows.deep_view() =~= Seq::empty());
        response
    }
}

/// Maps the outcome of a query to its response. Failure is part of the
/// answer, not a fault of the gateway: every outcome gets a response.
pub fn respond(outcome: Result<Table, String>) -> (response: QueryResponse)
    ensures
        response@ == response_to(
            match outcome {
                Ok(table) => Ok(table@),
                Err(message) => Err(message@),
            },
        ),
        outcome is Err <==> response.error is Some,
        outcome matches Ok(table) ==> response.columns == table.columns && response.rows
            == table.rows,
        outcome is Err ==> response.columns@.len() == 0 && response.rows@.len() == 0,
{
    match outcome {
        Ok(table) => QueryResponse::success(table),
        Err(message) => QueryResponse::failure(message),
    }
}

} // verus!
