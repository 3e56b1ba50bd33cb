//! What a GraphQL reply to the Railway API amounts to.

use vstd::prelude::*;

use crate::text::{join, join_strings, push_str, string_of, views};

verus! {

/// Whether an HTTP status code reports success: 200 to 299, the range
/// `http::StatusCode::is_success` accepts.
pub fn http_success(status: u16) -> (b: bool)
    ensures
        b == (200 <= status && status <= 299),
{
    200 <= status && status <= 299
}

/// Why a GraphQL reply carries no data.
pub enum GraphqlError {
    /// The reply lists errors; their messages joined with `"; "`.
    Api { messages: String },
    /// The reply has neither data nor errors.
    Empty,
}

/// The outcome of a parsed GraphQL reply: its errors, if it lists any (even
/// an empty list), win over its data; without errors, its data, if any.
pub fn graphql_result<T>(errors: Option<Vec<String>>, data: Option<T>) -> (r: Result<T, GraphqlError>)
    ensures
        match errors {
            Some(errs) => r matches Err(GraphqlError::Api { messages }) && messages@ == join(
                views(errs@),
                "; "@,
            ),
            None => match data {
                Some(d) => r == Ok::<T, GraphqlError>(d),
                None => r matches Err(GraphqlError::Empty),
            },
        },
{
    match errors {
        Some(errs) => {
            let joined = join_strings(&errs, "; ");
            Err(GraphqlError::Api { messages: string_of(joined.as_slice()) })
        },
        None => match data {
            Some(d) => Ok(d),
            None => Err(GraphqlError::Empty),
        },
    }
}

impl GraphqlError {
    /// The message shown for the error.
    pub fn message(&self) -> (r: String)
        ensures
            r@ == match self {
                GraphqlError::Api { messages } => "Railway API error: "@ + messages@,
                GraphqlError::Empty => "empty GraphQL response"@,
            },
    {
        let mut v: Vec<char> = Vec::new();
        match self {
            GraphqlError::Api { messages } => {
                push_str(&mut v, "Railway API error: ");
                push_str(&mut v, messages.as_str());
            },
            GraphqlError::Empty => {
                push_str(&mut v, "empty GraphQL response");
            },
        }
        string_of(v.as_slice())
    }
}

} // verus!
