//! Requests to the server, and their framing as JSON text.

use vstd::prelude::*;

verus! {

/// The JSON string literal that stands for `text`: the text between double
/// quotes, with quotes, backslashes and control characters escaped as
/// `serde_json` escapes them.
pub uninterp spec fn json_string_literal(text: Seq<char>) -> Seq<char>;

/// Encodes `text` as a JSON string literal by `serde_json::to_string`.
/// Claimed: the encoding succeeds (a `str` is written into a `Vec<u8>`, which
/// cannot fail) and is the literal that `json_string_literal` names.
#[verifier::external_body]
fn encode_json_string(text: &str) -> (encoded: std::result::Result<String, serde_json::Error>)
    ensures
        encoded is Ok,
        encoded->Ok_0@ == json_string_literal(text@),
{
    serde_json::to_string(text)
}

/// The remote procedures that the client calls.
#[derive(Debug, Copy, Clone, PartialEq, Eq, Structural)]
pub enum Method {
    /// Checks that the server answers.
    Ping,
    /// Runs a query.
    Query,
    /// Selects the namespace and the database.
    Use,
    /// Signs in to an account.
    SignIn,
}

/// The name of a remote procedure on the wire.
pub open spec fn method_name(method: Method) -> Seq<char> {
    match method {
        Method::Ping => "ping"@,
        Method::Query => "query"@,
        Method::Use => "use"@,
        Method::SignIn => "signin"@,
    }
}

impl Method {
    /// The name of the procedure on the wire.
    pub fn name(&self) -> (name: &'static str)
        ensures
            name@ == method_name(*self),
    {
        match self {
            Method::Ping => "ping",
            Method::Query => "query",
            Method::Use => "use",
            Method::SignIn => "signin",
        }
    }
}

/// One parameter of a request.
#[derive(Debug, Clone)]
pub enum Param {
    /// A string, sent as a JSON string literal.
    Text(String),
    /// A value that is JSON text already, sent as it is.
    Json(String),
    /// The credentials of an account, sent as a JSON object.
    Credentials { user: String, pass: String },
}

/// Items of JSON text, separated by commas.
pub open spec fn comma_separated(items: Seq<Seq<char>>) -> Seq<char>
    decreases items.len(),
{
    if items.len() == 0 {
        Seq::empty()
    } else if items.len() == 1 {
        items[0]
    } else {
        comma_separated(items.drop_last()) + ","@ + items.last()
    }
}

/// The JSON object of a request, from the JSON texts of its identifier, of
/// its procedure's name and of its parameters.
pub open spec fn frame_text(id_json: Seq<char>, method_json: Seq<char>, params_json: Seq<Seq<char>>) -> Seq<char> {
    "{\"id\":"@ + id_json + ",\"method\":"@ + method_json + ",\"params\":["@ + comma_separated(params_json)
        + "]}"@
}

/// The JSON object of credentials, from the JSON texts of the user and the
/// password.
pub open spec fn credentials_text(user_json: Seq<char>, pass_json: Seq<char>) -> Seq<char> {
    "{\"user\":"@ + user_json + ",\"pass\":"@ + pass_json + "}"@
}

/// The JSON text of one parameter.
pub open spec fn param_json(param: Param) -> Seq<char> {
    match param {
        Param::Text(text) => json_string_literal(text@),
        Param::Json(json) => json@,
        Param::Credentials { user, pass } => credentials_text(
            json_string_literal(user@),
            json_string_literal(pass@),
        ),
    }
}

/// The JSON text of a request with this identifier, procedure and
/// parameters, as it is sent over the socket.
pub open spec fn frame_json(id: Seq<char>, method: Method, params: Seq<Param>) -> Seq<char> {
    frame_text(
        json_string_literal(id),
        json_string_literal(method_name(method)),
        params.map_values(|param: Param| param_json(param)),
    )
}

/// Assembles the JSON object of a request from the JSON texts of its
/// identifier, of its procedure's name and of its parameters.
pub fn frame(id_json: &str, method_json: &str, params_json: &Vec<String>) -> (json: String)
    ensures
        json@ == frame_text(id_json@, method_json@, params_json@.map_values(|text: String| text@)),
{
    let ghost items = params_json@.map_values(|text: String| text@);
    let mut out = String::new();
    out.append("{\"id\":");
    out.append(id_json);
    out.append(",\"method\":");
    out.append(method_json);
    out.append(",\"params\":[");
    let mut i: usize = 0;
    while i < params_json.len()
        invariant
            i <= params_json@.len(),
            items == params_json@.map_values(|text: String| text@),
            out@ == "{\"id\":"@ + id_json@ + ",\"method\":"@ + method_json@ + ",\"params\":["@
                + comma_separated(items.take(i as int)),
        decreases params_json@.len() - i,
    {
        if i > 0 {
            out.append(",");
        }
        out.append(params_json[i].as_str());
        assert(items.take(i + 1).drop_last() =~= items.take(i as int));
        assert(items.take(i + 1).last() == params_json@[i as int]@);
        i = i + 1;
    }
    assert(items.take(i as int) =~= items);
    out.append("]}");
    out
}

/// Assembles the JSON object of credentials from the JSON texts of the user
/// and the password.
pub fn credentials(user_json: &str, pass_json: &str) -> (json: String)
    ensures
        json@ == credentials_text(user_json@, pass_json@),
{
    let mut out = String::new();
    out.append("{\"user\":");
    out.append(user_json);
    out.append(",\"pass\":");
    out.append(pass_json);
    out.append("}");
    out
}

/// The JSON text of one parameter.
fn encode_param(param: &Param) -> (json: String)
    ensures
        json@ == param_json(*param),
{
    match param {
        Param::Text(text) => encode_json_string(text.as_str()).unwrap(),
        Param::Json(json) => json.clone(),
        Param::Credentials { user, pass } => {
            let user_json = encode_json_string(user.as_str()).unwrap();
            let pass_json = encode_json_string(pass.as_str()).unwrap();
            credentials(user_json.as_str(), pass_json.as_str())
        },
    }
}

/// A request to the server: the remote procedure to call, its parameters,
/// and the identifier that the server repeats in its response.
#[derive(Debug, Clone)]
pub struct SurrealRequest {
    /// The identifier that the response will carry.
    pub id: String,
    /// The procedure to call.
    pub method: Method,
    /// Its parameters.
    pub params: Vec<Param>,
}

/// The JSON text of a request.
pub open spec fn request_json(request: SurrealRequest) -> Seq<char> {
    frame_json(request.id@, request.method, request.params@)
}

impl SurrealRequest {
    /// A ping.
    pub fn ping(id: String) -> (request: SurrealRequest)
        ensures
            request.id == id,
            request.method == Method::Ping,
            request.params@ == Seq::<Param>::empty(),
    {
        SurrealRequest { id, method: Method::Ping, params: Vec::new() }
    }

    /// A query with its variables, `vars` being the JSON text of an object
    /// that maps each variable's name to its value.
    pub fn query(id: String, sql: String, vars: String) -> (request: SurrealRequest)
        ensures
            request.id == id,
            request.method == Method::Query,
            request.params@ == seq![Param::Text(sql), Param::Json(vars)],
    {
        let mut params = Vec::new();
        params.push(Param::Text(sql));
        params.push(Param::Json(vars));
        SurrealRequest { id, method: Method::Query, params }
    }

    /// The choice of namespace and database.
    pub fn use_ns_db(id: String, ns: String, db: String) -> (request: SurrealRequest)
        ensures
            request.id == id,
            request.method == Method::Use,
            request.params@ == seq![Param::Text(ns), Param::Text(db)],
    {
        let mut params = Vec::new();
        params.push(Param::Text(ns));
        params.push(Param::Text(db));
        SurrealRequest { id, method: Method::Use, params }
    }

    /// A sign-in to an account.
    pub fn sign_in(id: String, username: String, password: String) -> (request: SurrealRequest)
        ensures
            request.id == id,
            request.method == Method::SignIn,
            request.params@ == seq![Param::Credentials { user: username, pass: password }],
    {
        let mut params = Vec::new();
        params.push(Param::Credentials { user: username, pass: password });
        SurrealRequest { id, method: Method::SignIn, params }
    }

    /// The identifier that the response will carry.
    pub fn id(&self) -> (id: &String)
        ensures
            id == self.id,
    {
        &self.id
    }

    /// The JSON text of the request.
    pub fn to_json(&self) -> (json: String)
        ensures
            json@ == request_json(*self),
    {
        let id_json = encode_json_string(self.id.as_str()).unwrap();
        let method_json = encode_json_string(self.method.name()).unwrap();
        let ghost params_spec = self.params@.map_values(|param: Param| param_json(param));
        let mut params_json: Vec<String> = Vec::new();
        let mut i: usize = 0;
        while i < self.params.len()
            invariant
                i <= self.params@.len(),
                params_spec == self.params@.map_values(|param: Param| param_json(param)),
                params_json@.len() == i,
                forall|k: int| 0 <= k < i ==> #[trigger] params_json@[k]@ == params_spec[k],
            decreases self.params@.len() - i,
        {
            params_json.push(encode_param(&self.params[i]));
            i = i + 1;
        }
        assert(params_json@.map_values(|text: String| text@) =~= params_spec);
        frame(id_json.as_str(), method_json.as_str(), &params_json)
    }
}

} // verus!
