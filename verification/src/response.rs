use vstd::prelude::*;

use crate::error::Error;

verus! {

/// A response received from the websocket server.
#[derive(Debug, Clone)]
pub struct SurrealRawResponse {
    /// The identifier of the request that this response answers.
    pub id: String,
    /// What the server answered.
    pub result: SurrealRawResult,
}

/// What the server answered to a request: a value, or an error.
#[derive(Debug, Clone)]
pub enum SurrealRawResult {
    /// The request succeeded with this value.
    Result(serde_json::Value),
    /// The request failed.
    Error { code: i64, message: String },
}

impl SurrealRawResponse {
    /// What the response means to the caller: the value on success, the
    /// server's error otherwise.
    pub open spec fn outcome(self) -> std::result::Result<serde_json::Value, Error> {
        match self.result {
            SurrealRawResult::Result(value) => Ok(value),
            SurrealRawResult::Error { code, message } => Err(Error::SurrealError { code, message }),
        }
    }

    /// Turns the response into the value it carries, or into the server's error.
    pub fn transpose(self) -> (outcome: std::result::Result<serde_json::Value, Error>)
        ensures
            outcome == self.outcome(),
            self.result matches SurrealRawResult::Result(value) ==> outcome == std::result::Result::<
                serde_json::Value,
                Error,
            >::Ok(value),
            self.result matches SurrealRawResult::Error { code, message } ==> outcome
                == std::result::Result::<serde_json::Value, Error>::Err(Error::SurrealError { code, message }),
    {
        match self.result {
            SurrealRawResult::Result(value) => Ok(value),
            SurrealRawResult::Error { code, message } => Err(Error::SurrealError { code, message }),
        }
    }
}

/// What a response resolves to depends on its result alone, never on its
/// identifier, and is either its value or the server's error.
pub proof fn law_outcome_ignores_identifier(first: SurrealRawResponse, second: SurrealRawResponse)
    requires
        first.result == second.result,
    ensures
        first.outcome() == second.outcome(),
        first.outcome() is Ok || first.outcome() matches Err(Error::SurrealError { .. }),
{
}

/// A received response resolves to its value, or to the server's error with
/// the server's code and message, whatever its identifier; never to an error
/// of the client.
pub proof fn law_received_response_keeps_the_server_answer(response: SurrealRawResponse)
    ensures
        response.result matches SurrealRawResult::Result(value) ==> received_outcome(
            Some(Reply::Response(response)),
        ) == std::result::Result::<serde_json::Value, Error>::Ok(value),
        response.result matches SurrealRawResult::Error { code, message } ==> received_outcome(
            Some(Reply::Response(response)),
        ) == std::result::Result::<serde_json::Value, Error>::Err(Error::SurrealError { code, message }),
{
}

/// What the background task sends to a request that waits for its response.
#[derive(Debug)]
pub enum Reply {
    /// The server's response.
    Response(SurrealRawResponse),
    /// The error handler shut the client down before the response came: the
    /// request fails with this websocket error.
    ShutDown(tokio_tungstenite::tungstenite::Error),
}

/// What a caller waiting for a response gets from what it received: the
/// response's value or the server's error; the websocket error of a shutdown;
/// or `ClientShutdown` when the task ended (the socket closed) with nothing
/// sent.
pub open spec fn received_outcome(received: Option<Reply>) -> std::result::Result<serde_json::Value, Error> {
    match received {
        Some(Reply::Response(response)) => response.outcome(),
        Some(Reply::ShutDown(error)) => Err(Error::Websocket(error)),
        None => Err(Error::ClientShutdown),
    }
}

/// Resolves what arrived for a request.
pub fn resolve_received(received: Option<Reply>) -> (outcome: std::result::Result<serde_json::Value, Error>)
    ensures
        outcome == received_outcome(received),
        received matches Some(Reply::Response(response)) ==> (response.result matches SurrealRawResult::Result(
            value,
        ) ==> outcome == std::result::Result::<serde_json::Value, Error>::Ok(value)),
        received matches Some(Reply::Response(response)) ==> (response.result matches SurrealRawResult::Error {
            code,
            message,
        } ==> outcome == std::result::Result::<serde_json::Value, Error>::Err(
            Error::SurrealError { code, message },
        )),
        received matches Some(Reply::ShutDown(error)) ==> outcome == std::result::Result::<
            serde_json::Value,
            Error,
        >::Err(Error::Websocket(error)),
        received is None ==> outcome == std::result::Result::<serde_json::Value, Error>::Err(
            Error::ClientShutdown,
        ),
{
    match received {
        Some(Reply::Response(response)) => response.transpose(),
        Some(Reply::ShutDown(error)) => Err(Error::Websocket(error)),
        None => Err(Error::ClientShutdown),
    }
}

} // verus!
