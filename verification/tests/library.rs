use serde_json::Value;
use surrealdb_rpc_async::builder::{ClientBuilder, Setup};
use surrealdb_rpc_async::client::{prepare_request, query_call, registration_outcome, request_for, Call};
use surrealdb_rpc_async::dispatch::{Dispatcher, Event, Step};
use surrealdb_rpc_async::ids::{decimal_string, RequestIds};
use surrealdb_rpc_async::pool::IdleQueue;
use surrealdb_rpc_async::request::{credentials, frame, Method, SurrealRequest};
use surrealdb_rpc_async::response::{resolve_received, Reply, SurrealRawResponse, SurrealRawResult};
use surrealdb_rpc_async::{ClientAction, Error};

fn ok_response(id: &str, value: Value) -> SurrealRawResponse {
    SurrealRawResponse { id: id.to_string(), result: SurrealRawResult::Result(value) }
}

#[test]
fn client_action_default_is_ignore_error() {
    assert_eq!(ClientAction::default(), ClientAction::IgnoreError);
    assert_ne!(ClientAction::default(), ClientAction::Shutdown);
}

#[test]
fn transpose_gives_the_value_of_a_result() {
    let outcome = ok_response("1", Value::Bool(true)).transpose();
    assert_eq!(outcome.unwrap(), Value::Bool(true));
}

#[test]
fn transpose_gives_the_error_of_the_server() {
    let response = SurrealRawResponse {
        id: "2".to_string(),
        result: SurrealRawResult::Error { code: -32000, message: "There was a problem".to_string() },
    };
    match response.transpose() {
        Err(Error::SurrealError { code, message }) => {
            assert_eq!(code, -32000);
            assert_eq!(message, "There was a problem");
        },
        _ => panic!("expected the server's error"),
    }
}

#[test]
fn nothing_received_means_the_client_shut_down() {
    assert!(matches!(resolve_received(None), Err(Error::ClientShutdown)));
    assert_eq!(resolve_received(Some(Reply::Response(ok_response("3", Value::Null)))).unwrap(), Value::Null);
}

#[test]
fn a_shutdown_fails_requests_with_a_websocket_error() {
    let closed = tokio_tungstenite::tungstenite::Error::AlreadyClosed;
    assert!(matches!(
        resolve_received(Some(Reply::ShutDown(closed))),
        Err(Error::Websocket(tokio_tungstenite::tungstenite::Error::AlreadyClosed))
    ));
    assert!(registration_outcome(true, tokio_tungstenite::tungstenite::Error::AlreadyClosed).is_ok());
    assert!(matches!(
        registration_outcome(false, tokio_tungstenite::tungstenite::Error::AlreadyClosed),
        Err(Error::Websocket(tokio_tungstenite::tungstenite::Error::AlreadyClosed))
    ));
}

#[test]
fn decimal_numerals() {
    assert_eq!(decimal_string(0), "0");
    assert_eq!(decimal_string(9), "9");
    assert_eq!(decimal_string(10), "10");
    assert_eq!(decimal_string(12345), "12345");
    assert_eq!(decimal_string(u64::MAX), "18446744073709551615");
}

#[test]
fn identifiers_count_up_from_zero() {
    let mut ids = RequestIds::new();
    assert_eq!(ids.fresh().unwrap(), "0");
    assert_eq!(ids.fresh().unwrap(), "1");
    assert_eq!(ids.fresh().unwrap(), "2");
}

#[test]
fn ping_is_framed_as_json() {
    assert_eq!(SurrealRequest::ping("7".to_string()).to_json(), r#"{"id":"7","method":"ping","params":[]}"#);
}

#[test]
fn query_is_framed_with_its_variables() {
    let request = SurrealRequest::query("8".to_string(), "SELECT bar FROM foo".to_string(), r#"{"x":1}"#.to_string());
    assert_eq!(request.method, Method::Query);
    assert_eq!(request.id(), "8");
    assert_eq!(request.to_json(), r#"{"id":"8","method":"query","params":["SELECT bar FROM foo",{"x":1}]}"#);
}

#[test]
fn strings_are_escaped() {
    let request = SurrealRequest::query("9".to_string(), "CREATE foo SET bar = \"b\\at\"\n".to_string(), "{}".to_string());
    assert_eq!(
        request.to_json(),
        r#"{"id":"9","method":"query","params":["CREATE foo SET bar = \"b\\at\"\n",{}]}"#
    );
}

#[test]
fn sign_in_and_use_are_framed() {
    let sign_in = SurrealRequest::sign_in("10".to_string(), "root".to_string(), "pa\"ss".to_string());
    assert_eq!(sign_in.to_json(), r#"{"id":"10","method":"signin","params":[{"user":"root","pass":"pa\"ss"}]}"#);
    let use_ns_db = SurrealRequest::use_ns_db("11".to_string(), "client_test".to_string(), "db".to_string());
    assert_eq!(use_ns_db.to_json(), r#"{"id":"11","method":"use","params":["client_test","db"]}"#);
}

#[test]
fn request_for_a_call_keeps_the_identifier() {
    let request = request_for("12".to_string(), Call::UseNsDb { ns: "n".to_string(), db: "d".to_string() });
    assert_eq!(request.id, "12");
    assert_eq!(request.method, Method::Use);
    assert_eq!(request.params.len(), 2);
}

#[test]
fn prepared_requests_get_successive_identifiers() {
    let mut ids = RequestIds::new();
    let (id, text) = prepare_request(&mut ids, Call::Ping).unwrap();
    assert_eq!(id, "0");
    assert_eq!(text, r#"{"id":"0","method":"ping","params":[]}"#);
    let (id, text) = prepare_request(
        &mut ids,
        Call::SignIn { username: "root".to_string(), password: "root".to_string() },
    )
    .unwrap();
    assert_eq!(id, "1");
    assert_eq!(text, r#"{"id":"1","method":"signin","params":[{"user":"root","pass":"root"}]}"#);
}

fn delivered(step: Step<u32>) -> Option<(u32, SurrealRawResponse)> {
    match step {
        Step::Deliver(sink, response) => Some((sink, response)),
        _ => None,
    }
}

fn is_continue(step: &Step<u32>) -> bool {
    matches!(step, Step::Continue)
}

fn is_stop(step: &Step<u32>) -> bool {
    matches!(step, Step::Stop)
}

fn is_shut_down(step: &Step<u32>) -> bool {
    matches!(step, Step::ShutDown)
}

#[test]
fn response_after_registration_is_delivered() {
    let mut dispatcher: Dispatcher<u32> = Dispatcher::new();
    assert!(is_continue(&dispatcher.step(Event::Registered("1".to_string(), 41))));
    let (sink, response) = delivered(dispatcher.step(Event::Response(ok_response("1", Value::Bool(true))))).unwrap();
    assert_eq!(sink, 41);
    assert_eq!(response.id, "1");
}

#[test]
fn response_before_registration_is_delivered() {
    let mut dispatcher: Dispatcher<u32> = Dispatcher::new();
    assert!(is_continue(&dispatcher.step(Event::Response(ok_response("5", Value::Null)))));
    let (sink, response) = delivered(dispatcher.step(Event::Registered("5".to_string(), 7))).unwrap();
    assert_eq!(sink, 7);
    assert_eq!(response.id, "5");
}

#[test]
fn responses_go_to_the_request_with_their_identifier() {
    let mut dispatcher: Dispatcher<u32> = Dispatcher::new();
    assert!(is_continue(&dispatcher.step(Event::Registered("1".to_string(), 100))));
    assert!(is_continue(&dispatcher.step(Event::Registered("2".to_string(), 200))));
    let (sink, _) = delivered(dispatcher.step(Event::Response(ok_response("2", Value::Null)))).unwrap();
    assert_eq!(sink, 200);
    let (sink, _) = delivered(dispatcher.step(Event::Response(ok_response("1", Value::Null)))).unwrap();
    assert_eq!(sink, 100);
    // Nothing is left waiting: a second response with the same identifier is kept.
    assert!(is_continue(&dispatcher.step(Event::Response(ok_response("1", Value::Null)))));
}

#[test]
fn errors_stop_or_continue_as_the_handler_says() {
    let mut dispatcher: Dispatcher<u32> = Dispatcher::new();
    assert!(is_continue(&dispatcher.step(Event::Failed(ClientAction::IgnoreError))));
    assert!(is_shut_down(&dispatcher.step(Event::Failed(ClientAction::Shutdown))));
    assert!(is_stop(&dispatcher.step(Event::RegistrationsClosed)));
    assert!(is_stop(&dispatcher.step(Event::SocketClosed)));
}

#[test]
fn error_handler_keeps_the_setup() {
    let builder = ClientBuilder::new("ws://127.0.0.1:8000/rpc".to_string())
        .sign_in("root".to_string(), "root".to_string())
        .ns_db("ns".to_string(), "db".to_string());
    let with_handler = builder.with_err_handler(5u8);
    assert_eq!(with_handler.request(), "ws://127.0.0.1:8000/rpc");
    assert_eq!(*with_handler.err_handler(), 5u8);
    let (request, handler, setup) = with_handler.into_parts();
    assert_eq!(request, "ws://127.0.0.1:8000/rpc");
    assert_eq!(handler, 5u8);
    assert_eq!(setup.len(), 2);
    assert!(matches!(&setup[0], Setup::SignIn { username, password } if username == "root" && password == "root"));
    assert!(matches!(&setup[1], Setup::UseNsDb { ns, db } if ns == "ns" && db == "db"));
}

#[test]
fn take_handler_keeps_the_setup() {
    let builder = ClientBuilder::new("ws://server".to_string())
        .with_err_handler(9u8)
        .ns_db("ns".to_string(), "db".to_string());
    let (rest, handler) = builder.take_handler();
    assert_eq!(handler, 9u8);
    let (request, unit, setup) = rest.into_parts();
    assert_eq!(request, "ws://server");
    assert_eq!(unit, ());
    assert_eq!(setup.len(), 1);
    assert!(matches!(&setup[0], Setup::UseNsDb { ns, db } if ns == "ns" && db == "db"));
}

#[test]
fn sign_in_comes_before_ns_db() {
    let builder = ClientBuilder::new("ws://server".to_string())
        .ns_db("ns".to_string(), "db".to_string())
        .sign_in("user".to_string(), "pass".to_string());
    let (_, _, setup) = builder.into_parts();
    assert_eq!(setup.len(), 2);
    assert!(matches!(&setup[0], Setup::SignIn { username, password } if username == "user" && password == "pass"));
    assert!(matches!(&setup[1], Setup::UseNsDb { ns, db } if ns == "ns" && db == "db"));
}

#[test]
fn idle_connections_come_back_in_order() {
    let mut idle: IdleQueue<&str> = IdleQueue::new();
    assert_eq!(idle.take(), None);
    idle.give_back("a");
    idle.give_back("b");
    assert_eq!(idle.take(), Some("a"));
    idle.give_back("c");
    assert_eq!(idle.take(), Some("b"));
    assert_eq!(idle.take(), Some("c"));
    assert_eq!(idle.take(), None);
}

#[test]
fn frame_assembles_encoded_parts() {
    let params = vec!["\"a\"".to_string(), "{}".to_string(), "3".to_string()];
    assert_eq!(frame("\"x\"", "\"query\"", &params), r#"{"id":"x","method":"query","params":["a",{},3]}"#);
    assert_eq!(frame("\"y\"", "\"ping\"", &Vec::new()), r#"{"id":"y","method":"ping","params":[]}"#);
}

#[test]
fn credentials_assemble_encoded_parts() {
    assert_eq!(credentials("\"root\"", "\"secret\""), r#"{"user":"root","pass":"secret"}"#);
}

#[test]
fn server_error_shows_its_message() {
    let response = SurrealRawResponse {
        id: "7".to_string(),
        result: SurrealRawResult::Error { code: -32000, message: "boom".to_string() },
    };
    let error = response.transpose().unwrap_err();
    assert!(matches!(&error, Error::SurrealError { code: -32000, message } if message == "boom"));
    assert_eq!(error.to_string(), "boom");
    assert_eq!(Error::ClientShutdown.to_string(), "Client was shut down and can no longer send messages");
}

#[test]
fn json_error_shows_the_message_of_serde_json() {
    let inner = serde_json::from_str::<Value>("{").unwrap_err();
    let expected = inner.to_string();
    assert_eq!(Error::Json(inner).to_string(), expected);
}

#[test]
fn query_call_encodes_its_variables() {
    let mut params = std::collections::BTreeMap::new();
    params.insert("a".to_string(), Value::Bool(true));
    params.insert("b".to_string(), Value::Null);
    match query_call("SELECT * FROM $a".to_string(), &params) {
        Call::Query { sql, vars } => {
            assert_eq!(sql, "SELECT * FROM $a");
            assert_eq!(vars, r#"{"a":true,"b":null}"#);
        },
        _ => panic!("expected a query"),
    }
    let (_, text) = prepare_request(&mut RequestIds::new(), query_call("RETURN 1".to_string(), &std::collections::BTreeMap::new())).unwrap();
    assert_eq!(text, r#"{"id":"0","method":"query","params":["RETURN 1",{}]}"#);
}

#[test]
fn response_to_an_unregistered_identifier_reaches_no_sink() {
    let mut dispatcher: Dispatcher<u32> = Dispatcher::new();
    assert!(is_continue(&dispatcher.step(Event::Registered("1".to_string(), 10))));
    assert!(is_continue(&dispatcher.step(Event::Response(ok_response("2", Value::Null)))));
    assert!(is_continue(&dispatcher.step(Event::Registered("3".to_string(), 30))));
    let (sink, response) = delivered(dispatcher.step(Event::Response(ok_response("1", Value::Bool(false))))).unwrap();
    assert_eq!((sink, response.id.as_str()), (10, "1"));
    let (sink, response) = delivered(dispatcher.step(Event::Response(ok_response("3", Value::Null)))).unwrap();
    assert_eq!((sink, response.id.as_str()), (30, "3"));
}

#[test]
fn a_shutdown_hands_back_every_waiting_request() {
    let mut dispatcher: Dispatcher<u32> = Dispatcher::new();
    assert!(is_continue(&dispatcher.step(Event::Registered("1".to_string(), 10))));
    assert!(is_continue(&dispatcher.step(Event::Registered("2".to_string(), 20))));
    assert!(is_continue(&dispatcher.step(Event::Registered("3".to_string(), 30))));
    assert!(delivered(dispatcher.step(Event::Response(ok_response("2", Value::Null)))).is_some());
    assert!(is_shut_down(&dispatcher.step(Event::Failed(ClientAction::Shutdown))));
    let mut waiting = dispatcher.into_waiting();
    waiting.sort();
    assert_eq!(waiting, vec![("1".to_string(), 10), ("3".to_string(), 30)]);
}

#[test]
fn query_call_with_no_variables_sends_an_empty_object() {
    match query_call("RETURN 1".to_string(), &std::collections::BTreeMap::new()) {
        Call::Query { vars, .. } => assert_eq!(vars, "{}"),
        _ => panic!("expected a query"),
    }
}
