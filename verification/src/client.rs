//! What a client sends for each of its operations.

use vstd::prelude::*;

use crate::error::Error;
use crate::ids::{decimal, RequestIds};
use crate::request::{
    comma_separated, credentials_text, frame_json, json_string_literal, param_json, Method, Param,
    SurrealRequest,
};

verus! {

/// An operation of the client, with its arguments.
#[derive(Debug, Clone)]
pub enum Call {
    /// Send a ping to the server.
    Ping,
    /// Run a query; `vars` is the JSON text of the object that maps each
    /// variable's name to its value.
    Query { sql: String, vars: String },
    /// Set the namespace and database.
    UseNsDb { ns: String, db: String },
    /// Sign in to an account on the server.
    SignIn { username: String, password: String },
}

/// The JSON object that `serde_json` writes for a non-empty map of variables.
pub uninterp spec fn json_object(params: Map<String, serde_json::Value>) -> Seq<char>;

/// Encodes the variables of a query as a JSON object by `serde_json::to_string`.
/// Claimed: the encoding succeeds, since a map with `String` keys always
/// serialises; an empty map is written as `{}`, and any other map as the text
/// that `json_object` names.
#[verifier::external_body]
fn encode_vars(params: &std::collections::BTreeMap<String, serde_json::Value>) -> (vars: std::result::Result<String, serde_json::Error>)
    ensures
        vars is Ok,
        vars->Ok_0@ == (if params@ == Map::<String, serde_json::Value>::empty() {
            "{}"@
        } else {
            json_object(params@)
        }),
{
    serde_json::to_string(params)
}

/// A query with its variables, the variables encoded as a JSON object.
pub fn query_call(sql: String, params: &std::collections::BTreeMap<String, serde_json::Value>) -> (call: Call)
    ensures
        call matches Call::Query { sql: s, vars } && s == sql && vars@ == (if params@ == Map::<
            String,
            serde_json::Value,
        >::empty() {
            "{}"@
        } else {
            json_object(params@)
        }),
{
    let vars = encode_vars(params).unwrap();
    Call::Query { sql, vars }
}

/// What a request gets when the background task no longer takes
/// registrations: the connection is closed, and the request fails with the
/// websocket error `closed`.
pub fn registration_outcome(accepted: bool, closed: tokio_tungstenite::tungstenite::Error) -> (outcome: std::result::Result<(), Error>)
    ensures
        accepted ==> outcome is Ok,
        !accepted ==> outcome == std::result::Result::<(), Error>::Err(Error::Websocket(closed)),
{
    if accepted {
        Ok(())
    } else {
        Err(Error::Websocket(closed))
    }
}

/// The remote procedure that an operation calls.
pub open spec fn call_method(call: Call) -> Method {
    match call {
        Call::Ping => Method::Ping,
        Call::Query { .. } => Method::Query,
        Call::UseNsDb { .. } => Method::Use,
        Call::SignIn { .. } => Method::SignIn,
    }
}

/// The parameters that an operation sends.
pub open spec fn call_params(call: Call) -> Seq<Param> {
    match call {
        Call::Ping => Seq::empty(),
        Call::Query { sql, vars } => seq![Param::Text(sql), Param::Json(vars)],
        Call::UseNsDb { ns, db } => seq![Param::Text(ns), Param::Text(db)],
        Call::SignIn { username, password } => seq![Param::Credentials { user: username, pass: password }],
    }
}

/// The request for an operation under a given identifier.
pub fn request_for(id: String, call: Call) -> (request: SurrealRequest)
    ensures
        request.id == id,
        request.method == call_method(call),
        request.params@ == call_params(call),
        call is Ping ==> request.method == Method::Ping && request.params@ == Seq::<Param>::empty(),
        call matches Call::Query { sql, vars } ==> request.method == Method::Query && request.params@ == seq![
            Param::Text(sql),
            Param::Json(vars),
        ],
        call matches Call::UseNsDb { ns, db } ==> request.method == Method::Use && request.params@ == seq![
            Param::Text(ns),
            Param::Text(db),
        ],
        call matches Call::SignIn { username, password } ==> request.method == Method::SignIn
            && request.params@ == seq![Param::Credentials { user: username, pass: password }],
{
    match call {
        Call::Ping => SurrealRequest::ping(id),
        Call::Query { sql, vars } => SurrealRequest::query(id, sql, vars),
        Call::UseNsDb { ns, db } => SurrealRequest::use_ns_db(id, ns, db),
        Call::SignIn { username, password } => SurrealRequest::sign_in(id, username, password),
    }
}

/// The text sent for an operation under identifier `id`, written out piece by
/// piece: the query text then the variables' JSON as they are; the namespace
/// then the database; the username as `user` and the password as `pass`.
pub open spec fn sent_text(id: Seq<char>, call: Call) -> Seq<char> {
    let head = "{\"id\":"@ + json_string_literal(id) + ",\"method\":"@;
    match call {
        Call::Ping => head + json_string_literal("ping"@) + ",\"params\":["@ + "]}"@,
        Call::Query { sql, vars } => head + json_string_literal("query"@) + ",\"params\":["@
            + json_string_literal(sql@) + ","@ + vars@ + "]}"@,
        Call::UseNsDb { ns, db } => head + json_string_literal("use"@) + ",\"params\":["@
            + json_string_literal(ns@) + ","@ + json_string_literal(db@) + "]}"@,
        Call::SignIn { username, password } => head + json_string_literal("signin"@) + ",\"params\":["@
            + "{\"user\":"@ + json_string_literal(username@) + ",\"pass\":"@ + json_string_literal(password@)
            + "}"@ + "]}"@,
    }
}

/// The framed text of an operation is its written-out text.
proof fn lemma_sent_text(id: Seq<char>, call: Call)
    ensures
        frame_json(id, call_method(call), call_params(call)) == sent_text(id, call),
{
    let params = call_params(call);
    let texts = params.map_values(|param: Param| param_json(param));
    match call {
        Call::Ping => {
            assert(texts =~= Seq::<Seq<char>>::empty());
            assert(comma_separated(texts) =~= Seq::<char>::empty());
        },
        Call::Query { sql, vars } => {
            assert(texts =~= seq![json_string_literal(sql@), vars@]);
            assert(texts.drop_last() =~= seq![json_string_literal(sql@)]);
            assert(comma_separated(texts.drop_last()) == json_string_literal(sql@));
            assert(texts.last() == vars@);
            assert(comma_separated(texts) == json_string_literal(sql@) + ","@ + vars@);
        },
        Call::UseNsDb { ns, db } => {
            assert(texts =~= seq![json_string_literal(ns@), json_string_literal(db@)]);
            assert(texts.drop_last() =~= seq![json_string_literal(ns@)]);
            assert(comma_separated(texts.drop_last()) == json_string_literal(ns@));
            assert(texts.last() == json_string_literal(db@));
            assert(comma_separated(texts) == json_string_literal(ns@) + ","@ + json_string_literal(db@));
        },
        Call::SignIn { username, password } => {
            assert(texts =~= seq![credentials_text(json_string_literal(username@), json_string_literal(password@))]);
        },
    }
    assert(frame_json(id, call_method(call), params) =~= sent_text(id, call));
}

/// Every operation is sent as its written-out text: the procedure's name,
/// then its arguments in the order in which the operation takes them, each in
/// its place (the namespace before the database, the username as `user` and
/// the password as `pass`, the variables as a JSON object rather than a
/// string).
pub proof fn law_operations_send_their_arguments_in_place(
    id: Seq<char>,
    sql: String,
    vars: String,
    ns: String,
    db: String,
    username: String,
    password: String,
)
    ensures
        frame_json(id, call_method(Call::Ping), call_params(Call::Ping)) == "{\"id\":"@ + json_string_literal(id)
            + ",\"method\":"@ + json_string_literal("ping"@) + ",\"params\":["@ + "]}"@,
        frame_json(id, call_method(Call::Query { sql, vars }), call_params(Call::Query { sql, vars }))
            == "{\"id\":"@ + json_string_literal(id) + ",\"method\":"@ + json_string_literal("query"@)
            + ",\"params\":["@ + json_string_literal(sql@) + ","@ + vars@ + "]}"@,
        frame_json(id, call_method(Call::UseNsDb { ns, db }), call_params(Call::UseNsDb { ns, db }))
            == "{\"id\":"@ + json_string_literal(id) + ",\"method\":"@ + json_string_literal("use"@)
            + ",\"params\":["@ + json_string_literal(ns@) + ","@ + json_string_literal(db@) + "]}"@,
        frame_json(
            id,
            call_method(Call::SignIn { username, password }),
            call_params(Call::SignIn { username, password }),
        ) == "{\"id\":"@ + json_string_literal(id) + ",\"method\":"@ + json_string_literal("signin"@)
            + ",\"params\":["@ + "{\"user\":"@ + json_string_literal(username@) + ",\"pass\":"@
            + json_string_literal(password@) + "}"@ + "]}"@,
{
    lemma_sent_text(id, Call::Ping);
    lemma_sent_text(id, Call::Query { sql, vars });
    lemma_sent_text(id, Call::UseNsDb { ns, db });
    lemma_sent_text(id, Call::SignIn { username, password });
}

/// Prepares an operation for sending: gives it the next identifier of the
/// client and frames it as JSON text. Returns the identifier, under which the
/// response will be awaited, and the text to send; or `ClientShutdown` once
/// the client has no identifier left to give.
pub fn prepare_request(ids: &mut RequestIds, call: Call) -> (prepared: std::result::Result<(String, String), Error>)
    ensures
        old(ids).next() < u64::MAX ==> {
            &&& prepared is Ok
            &&& prepared->Ok_0.0@ == decimal(old(ids).next())
            &&& prepared->Ok_0.1@ == frame_json(decimal(old(ids).next()), call_method(call), call_params(call))
            &&& final(ids).next() == old(ids).next() + 1
        },
        old(ids).next() < u64::MAX ==> prepared->Ok_0.1@ == sent_text(decimal(old(ids).next()), call),
        old(ids).next() == u64::MAX ==> (prepared matches Err(Error::ClientShutdown)) && final(ids).next() == old(ids).next(),
{
    proof {
        lemma_sent_text(decimal(old(ids).next()), call);
    }
    match ids.fresh() {
        Some(id) => {
            let request = request_for(id.clone(), call);
            let text = request.to_json();
            Ok((id, text))
        },
        None => Err(Error::ClientShutdown),
    }
}

} // verus!
