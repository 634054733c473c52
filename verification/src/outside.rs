//! The outside types that the library carries through without reading them.

use vstd::prelude::*;

use serde_json::Error as JsonError;
use tokio_tungstenite::tungstenite::Error as WebsocketError;

verus! {

/// The error type of the websocket layer, carried through unread.
#[verifier::external_type_specification]
#[verifier::external_body]
pub struct ExWebsocketError(WebsocketError);

/// A websocket message, carried through unread.
#[verifier::external_type_specification]
#[verifier::external_body]
pub struct ExWebsocketMessage(tokio_tungstenite::tungstenite::Message);

/// The error type of the JSON layer, carried through unread.
#[verifier::external_type_specification]
#[verifier::external_body]
pub struct ExJsonError(JsonError);

/// A JSON value sent by the server, carried through unread.
#[verifier::external_type_specification]
#[verifier::external_body]
pub struct ExJsonValue(serde_json::Value);

/// `Clone` of `serde_json::Value`, called by the derived `Clone` of the
/// response types. Nothing is claimed of the copy.
pub assume_specification[ <serde_json::Value as std::clone::Clone>::clone ](value: &serde_json::Value) -> serde_json::Value;

} // verus!
