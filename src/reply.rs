use vstd::prelude::*;

use crate::entry::{entries_from_rows, rows_as_entries, rows_fit};
use crate::error::{error_message, TodoError};
use crate::view::{index_page, render_index};

verus! {

/// Creates the table unless it is there already.
pub const CREATE_TABLE_SQL: &'static str = "CREATE TABLE IF NOT EXISTS todo (id INTEGER PRIMARY KEY AUTOINCREMENT, text TEXT NOT NULL)";

/// Reads every entry, in storage order.
pub const SELECT_ALL_SQL: &'static str = "SELECT id, text FROM todo";

/// Stores a new entry; the table assigns its id.
pub const INSERT_SQL: &'static str = "INSERT INTO todo (text) VALUES (?)";

/// Removes the entry with an id.
pub const DELETE_SQL: &'static str = "DELETE FROM todo WHERE id=?";

/// An HTTP reply: its status, the `Location` and `Content-Type` headers when
/// set, and its body.
#[derive(Debug)]
pub struct Reply {
    pub status: u16,
    pub location: Option<String>,
    pub content_type: Option<String>,
    pub body: String,
}

/// A `303 See Other` to the list, with no body.
pub open spec fn is_redirect_to_list(r: Reply) -> bool {
    &&& r.status == 303
    &&& r.location matches Some(l) && l@ == "/"@
    &&& r.content_type is None
    &&& r.body@.len() == 0
}

/// A `500` whose plain-text body names the error kind.
pub open spec fn is_server_error(r: Reply, e: TodoError) -> bool {
    &&& r.status == 500
    &&& r.location is None
    &&& r.content_type matches Some(c) && c@ == "text/plain; charset=utf-8"@
    &&& r.body@ == error_message(e)
}

/// A `200` HTML page with the body given.
pub open spec fn is_page(r: Reply, body: Seq<char>) -> bool {
    &&& r.status == 200
    &&& r.location is None
    &&& r.content_type matches Some(c) && c@ == "text/html"@
    &&& r.body@ == body
}

/// The reply to a request that failed.
pub fn error_reply(e: TodoError) -> (r: Reply)
    ensures
        is_server_error(r, e),
{
    Reply {
        status: 500,
        location: None,
        content_type: Some(String::from_str("text/plain; charset=utf-8")),
        body: e.message(),
    }
}

fn redirect_to_list() -> (r: Reply)
    ensures
        is_redirect_to_list(r),
{
    proof {
        reveal_strlit("");
    }
    Reply {
        status: 303,
        location: Some(String::from_str("/")),
        content_type: None,
        body: String::from_str(""),
    }
}

/// The reply of the list route, given what reading the table gave: the page
/// of the entries, or a server error when the read failed or an id does not
/// fit an entry id.
pub fn index(rows: Result<Vec<(i64, String)>, TodoError>) -> (r: Reply)
    ensures
        rows matches Ok(v) ==> (rows_fit(v@) ==> is_page(r, index_page(rows_as_entries(v@)))),
        rows matches Ok(v) ==> (!rows_fit(v@) ==> is_server_error(r, TodoError::Query)),
        rows matches Err(e) ==> is_server_error(r, e),
{
    match rows {
        Ok(v) => match entries_from_rows(v) {
            Ok(entries) => {
                let body = render_index(&entries);
                Reply {
                    status: 200,
                    location: None,
                    content_type: Some(String::from_str("text/html")),
                    body,
                }
            },
            Err(e) => error_reply(e),
        },
        Err(e) => error_reply(e),
    }
}

/// The reply of the add route, given how the insertion went: back to the
/// list, or a server error.
pub fn add_todo(outcome: Result<usize, TodoError>) -> (r: Reply)
    ensures
        outcome is Ok ==> is_redirect_to_list(r),
        outcome matches Err(e) ==> is_server_error(r, e),
{
    match outcome {
        Ok(_) => redirect_to_list(),
        Err(e) => error_reply(e),
    }
}

/// The reply of the delete route, given how the deletion went: back to the
/// list whether or not an entry was removed, or a server error.
pub fn delete_todo(outcome: Result<usize, TodoError>) -> (r: Reply)
    ensures
        outcome is Ok ==> is_redirect_to_list(r),
        outcome matches Err(e) ==> is_server_error(r, e),
{
    match outcome {
        Ok(_) => redirect_to_list(),
        Err(e) => error_reply(e),
    }
}

} // verus!
