use vstd::prelude::*;

verus! {

/// askama's `Error`, the failure of a template render. Opaque here: it is
/// only carried into `TodoError::Render`.
#[verifier::external_type_specification]
#[verifier::external_body]
pub struct ExAskamaError(askama::Error);

/// r2d2's `Error`, a failure to check a connection out of the pool. Opaque
/// here: it is only carried into `TodoError::Pool`.
#[verifier::external_type_specification]
#[verifier::external_body]
pub struct ExPoolError(r2d2::Error);

/// rusqlite's `Error`, a failed statement or column read. Opaque here: it is
/// only carried into `TodoError::Query`.
#[verifier::external_type_specification]
#[verifier::external_body]
pub struct ExSqlError(rusqlite::Error);

/// What can go wrong while a request is handled. Every kind is answered with
/// a server error; none is retried.
#[derive(Debug, Clone, Copy, PartialEq, Eq, Structural)]
pub enum TodoError {
    /// The page could not be rendered.
    Render,
    /// No database connection could be had from the pool.
    Pool,
    /// A statement failed, or a stored value could not be read.
    Query,
}

/// The text that names an error kind.
pub open spec fn error_message(e: TodoError) -> Seq<char> {
    match e {
        TodoError::Render => "Failed to render HTML"@,
        TodoError::Pool => "Failed to get connection"@,
        TodoError::Query => "Failed SQL execution"@,
    }
}

impl TodoError {
    /// The text that names this error kind.
    pub fn message(&self) -> (r: String)
        ensures
            r@ == error_message(*self),
    {
        match self {
            TodoError::Render => String::from_str("Failed to render HTML"),
            TodoError::Pool => String::from_str("Failed to get connection"),
            TodoError::Query => String::from_str("Failed SQL execution"),
        }
    }
}

impl From<askama::Error> for TodoError {
    fn from(_e: askama::Error) -> (r: TodoError)
        ensures
            r == TodoError::Render,
    {
        TodoError::Render
    }
}

impl vstd::std_specs::convert::FromSpecImpl<askama::Error> for TodoError {
    open spec fn obeys_from_spec() -> bool {
        true
    }

    open spec fn from_spec(v: askama::Error) -> TodoError {
        TodoError::Render
    }
}

impl From<r2d2::Error> for TodoError {
    fn from(_e: r2d2::Error) -> (r: TodoError)
        ensures
            r == TodoError::Pool,
    {
        TodoError::Pool
    }
}

impl vstd::std_specs::convert::FromSpecImpl<r2d2::Error> for TodoError {
    open spec fn obeys_from_spec() -> bool {
        true
    }

    open spec fn from_spec(v: r2d2::Error) -> TodoError {
        TodoError::Pool
    }
}

impl From<rusqlite::Error> for TodoError {
    fn from(_e: rusqlite::Error) -> (r: TodoError)
        ensures
            r == TodoError::Query,
    {
        TodoError::Query
    }
}

impl vstd::std_specs::convert::FromSpecImpl<rusqlite::Error> for TodoError {
    open spec fn obeys_from_spec() -> bool {
        true
    }

    open spec fn from_spec(v: rusqlite::Error) -> TodoError {
        TodoError::Query
    }
}

} // verus!
