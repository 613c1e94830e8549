//! The failures of the library, one variant per kind.

use vstd::prelude::*;
use crate::openai::APIError;

verus! {

#[derive(Debug)]
pub enum Error {
    /// No credential was given, so no request can be made.
    NoAPIKey,
    /// The conversation came out empty once every source was merged.
    NoMessagesProvided,
    /// The provider answered with success but the reply cannot be rendered.
    UnexpectedResponse(String),
    /// A JSON value could not be written as text; holds the serializer's message.
    JSON(String),
    /// The provider rejected the request with its structured error envelope.
    OpenAIError { error: APIError },
}

} // verus!
