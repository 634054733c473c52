//! The configuration of a client before it connects.

use vstd::prelude::*;

verus! {

/// A request that a freshly connected client sends before it is handed out.
#[derive(Debug, Clone)]
pub enum Setup {
    /// Sign in to this account.
    SignIn { username: String, password: String },
    /// Select this namespace and database.
    UseNsDb { ns: String, db: String },
}

/// The setup requests for the given sign-in and namespace configuration:
/// the sign-in first, then the choice of namespace and database, each only
/// where it was configured.
pub open spec fn setup_plan(
    sign_in: Option<(String, String)>,
    ns_db: Option<(String, String)>,
) -> Seq<Setup> {
    let first = match sign_in {
        Some((username, password)) => seq![Setup::SignIn { username, password }],
        None => Seq::empty(),
    };
    let second = match ns_db {
        Some((ns, db)) => seq![Setup::UseNsDb { ns, db }],
        None => Seq::empty(),
    };
    first + second
}

/// Builder pattern constructor for a client: the address of the server, the
/// handler of errors that no request can be blamed for, and the requests to
/// send once connected.
#[derive(Clone)]
pub struct ClientBuilder<H> {
    request: String,
    err_handler: H,
    pre_sign_in: Option<(String, String)>,
    pre_ns_db: Option<(String, String)>,
}

impl<H> ClientBuilder<H> {
    /// The address of the server.
    pub closed spec fn target(&self) -> Seq<char> {
        self.request@
    }

    /// The error handler.
    pub closed spec fn handler(&self) -> H {
        self.err_handler
    }

    /// The account to sign in to once connected, if any.
    pub closed spec fn sign_in_config(&self) -> Option<(String, String)> {
        self.pre_sign_in
    }

    /// The namespace and database to select once connected, if any.
    pub closed spec fn ns_db_config(&self) -> Option<(String, String)> {
        self.pre_ns_db
    }

    /// Sets an error handler which will be called if the client receives an
    /// error message from the websocket for which it cannot identify which
    /// query is being responded to. The address, the sign-in and the
    /// namespace stay as they are.
    pub fn with_err_handler<F>(self, err_handler: F) -> (builder: ClientBuilder<F>)
        ensures
            builder.target() == self.target(),
            builder.handler() == err_handler,
            builder.sign_in_config() == self.sign_in_config(),
            builder.ns_db_config() == self.ns_db_config(),
    {
        ClientBuilder {
            request: self.request,
            err_handler,
            pre_sign_in: self.pre_sign_in,
            pre_ns_db: self.pre_ns_db,
        }
    }

    /// Takes the error handler out, leaving the unit handler (which ignores
    /// errors) in its place and the rest of the configuration as it is.
    pub fn take_handler(self) -> (parts: (ClientBuilder<()>, H))
        ensures
            parts.0.target() == self.target(),
            parts.0.sign_in_config() == self.sign_in_config(),
            parts.0.ns_db_config() == self.ns_db_config(),
            parts.1 == self.handler(),
    {
        (
            ClientBuilder {
                request: self.request,
                err_handler: (),
                pre_sign_in: self.pre_sign_in,
                pre_ns_db: self.pre_ns_db,
            },
            self.err_handler,
        )
    }

    /// Sets the account to sign in to once connected.
    pub fn sign_in(self, username: String, password: String) -> (builder: Self)
        ensures
            builder.target() == self.target(),
            builder.handler() == self.handler(),
            builder.sign_in_config() == Some((username, password)),
            builder.ns_db_config() == self.ns_db_config(),
    {
        let mut builder = self;
        builder.pre_sign_in = Some((username, password));
        builder
    }

    /// Sets the namespace and database to select once connected.
    pub fn ns_db(self, ns: String, db: String) -> (builder: Self)
        ensures
            builder.target() == self.target(),
            builder.handler() == self.handler(),
            builder.sign_in_config() == self.sign_in_config(),
            builder.ns_db_config() == Some((ns, db)),
    {
        let mut builder = self;
        builder.pre_ns_db = Some((ns, db));
        builder
    }

    /// The address of the server.
    pub fn request(&self) -> (request: &String)
        ensures
            request@ == self.target(),
    {
        &self.request
    }

    /// The error handler.
    pub fn err_handler(&self) -> (err_handler: &H)
        ensures
            *err_handler == self.handler(),
    {
        &self.err_handler
    }

    /// Splits the builder into the address of the server, the error handler
    /// and the setup requests, in the order in which they are sent.
    pub fn into_parts(self) -> (parts: (String, H, Vec<Setup>))
        ensures
            parts.0@ == self.target(),
            parts.1 == self.handler(),
            parts.2@ == setup_plan(self.sign_in_config(), self.ns_db_config()),
            self.sign_in_config() matches Some((username, password)) ==> parts.2@[0] == (Setup::SignIn {
                username,
                password,
            }),
            self.ns_db_config() matches Some((ns, db)) ==> parts.2@.last() == (Setup::UseNsDb { ns, db }),
            parts.2@.len() == (if self.sign_in_config() is Some { 1int } else { 0 }) + (if self.ns_db_config() is Some {
                1int
            } else {
                0
            }),
    {
        let ghost plan = setup_plan(self.pre_sign_in, self.pre_ns_db);
        let mut setup = Vec::new();
        match self.pre_sign_in {
            Some((username, password)) => setup.push(Setup::SignIn { username, password }),
            None => {},
        }
        match self.pre_ns_db {
            Some((ns, db)) => setup.push(Setup::UseNsDb { ns, db }),
            None => {},
        }
        assert(setup@ =~= plan);
        (self.request, self.err_handler, setup)
    }
}

impl ClientBuilder<()> {
    /// Creates a builder for a client that will connect to the server at this
    /// address, ignore errors that no request can be blamed for, and send no
    /// setup requests.
    pub fn new(request: String) -> (builder: ClientBuilder<()>)
        ensures
            builder.target() == request@,
            builder.sign_in_config() is None,
            builder.ns_db_config() is None,
    {
        ClientBuilder { request, err_handler: (), pre_sign_in: None, pre_ns_db: None }
    }
}

/// Once connected, a client signs in before it selects the namespace and
/// database, sends each setup request only where it was configured, and
/// sends each with the configured values in their places: the username as
/// the username and the password as the password, the namespace as the
/// namespace and the database as the database.
pub proof fn law_sign_in_precedes_ns_db(
    sign_in: Option<(String, String)>,
    ns_db: Option<(String, String)>,
)
    ensures
        setup_plan(sign_in, ns_db).len() == (if sign_in is Some { 1int } else { 0 }) + (if ns_db is Some { 1int } else { 0 }),
        sign_in matches Some((username, password)) ==> setup_plan(sign_in, ns_db)[0] == (Setup::SignIn {
            username,
            password,
        }),
        ns_db matches Some((ns, db)) ==> setup_plan(sign_in, ns_db).last() == (Setup::UseNsDb { ns, db }),
{
}

} // verus!
