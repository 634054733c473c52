use vstd::prelude::*;

use crate::response::SurrealRawResponse;
use vstd::string::to_string_from_display_ensures;

verus! {

/// Everything that can go wrong while talking to the server.
#[derive(Debug)]
pub enum Error {
    /// The websocket failed.
    Websocket(tokio_tungstenite::tungstenite::Error),
    /// A value could not be encoded as, or decoded from, JSON.
    Json(serde_json::Error),
    /// Client was shut down and can no longer send messages.
    ClientShutdown,
    /// The server behaved in an unexpected fashion.
    UnexpectedServerBehaviour(tokio_tungstenite::tungstenite::Message),
    /// The server sent a response, but not for an ID a request was sent for.
    ResponseForUnknownID(SurrealRawResponse),
    /// The server answered the request with an error.
    SurrealError { code: i64, message: String },
}

/// The message of an error, for the variants whose message is fixed text or
/// the server's own message; `None` for those that show the message of the
/// websocket or JSON error they carry.
pub open spec fn fixed_message(error: Error) -> Option<Seq<char>> {
    match error {
        Error::Websocket(_) => None,
        Error::Json(_) => None,
        Error::ClientShutdown => Some("Client was shut down and can no longer send messages"@),
        Error::UnexpectedServerBehaviour(_) => Some("The server behaved in an unexpected fashion"@),
        Error::ResponseForUnknownID(_) => Some(
            "The server sent a response, but not for an ID a request was sent for"@,
        ),
        Error::SurrealError { message, .. } => Some(message@),
    }
}

impl Error {
    /// The message of the error: fixed text for the client's own errors, the
    /// server's message for an error of the server, and the message of the
    /// websocket or JSON error that it carries otherwise.
    pub fn to_string(&self) -> (text: String)
        ensures
            fixed_message(*self) matches Some(message) ==> text@ == message,
            self matches Error::SurrealError { message, .. } ==> text@ == message@,
            self is ClientShutdown ==> text@ == "Client was shut down and can no longer send messages"@,
            self is UnexpectedServerBehaviour ==> text@ == "The server behaved in an unexpected fashion"@,
            self is ResponseForUnknownID ==> text@ == "The server sent a response, but not for an ID a request was sent for"@,
            self matches Error::Websocket(e) ==> to_string_from_display_ensures(e, text),
            self matches Error::Json(e) ==> to_string_from_display_ensures(e, text),
    {
        match self {
            Error::Websocket(e) => e.to_string(),
            Error::Json(e) => e.to_string(),
            Error::ClientShutdown => String::from_str("Client was shut down and can no longer send messages"),
            Error::UnexpectedServerBehaviour(_) => String::from_str("The server behaved in an unexpected fashion"),
            Error::ResponseForUnknownID(_) => String::from_str(
                "The server sent a response, but not for an ID a request was sent for",
            ),
            Error::SurrealError { message, .. } => message.clone(),
        }
    }
}

/// The result type of the client's operations.
pub type Result<T> = std::result::Result<T, Error>;

} // verus!
