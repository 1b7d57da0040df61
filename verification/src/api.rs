//! The service's interface: what is asked of it, and what its replies mean.

use crate::auth;
use crate::auth::{Cause, CauseView, Credentials, CredentialsView, GRANOLA_CLIENT_VERSION};
use crate::json;
use crate::json::{
    add_field, no_fields, number, object, text_list, text_value, Json, JsonView, NumberView,
};
use crate::session;
use crate::text;
use crate::text::{prefixed, to_decimal};
use vstd::prelude::*;

verus! {

/// Where the service is.
pub const BASE_URL: &'static str = "https://api.granola.ai";

/// How often a request is sent again.
pub const MAX_RETRIES: u32 = 3;

/// How long the first wait before sending again is, in milliseconds.
pub const BASE_BACKOFF_MS: u64 = 250;

// ---- Errors -----------------------------------------------------------------

/// Why a request brought nothing. The text says what happened, and not how to
/// mend it: a terminal and an agent mend it differently.
#[derive(Debug, PartialEq, Eq)]
pub enum Error {
    Auth(auth::Error),
    Http { status: u16, message: String },
    Transport(String),
    Json(Cause),
    Unauthenticated,
    NeedsKeychainApproval,
}

/// What an [`Error`] says.
pub enum ErrorView {
    Auth(auth::ErrorView),
    Http { status: u16, message: Seq<char> },
    Transport(Seq<char>),
    Json(CauseView),
    Unauthenticated,
    NeedsKeychainApproval,
}

impl View for Error {
    type V = ErrorView;

    open spec fn view(&self) -> ErrorView {
        match self {
            Error::Auth(e) => ErrorView::Auth(e@),
            Error::Http { status, message } => ErrorView::Http {
                status: *status,
                message: message@,
            },
            Error::Transport(s) => ErrorView::Transport(s@),
            Error::Json(s) => ErrorView::Json(s@),
            Error::Unauthenticated => ErrorView::Unauthenticated,
            Error::NeedsKeychainApproval => ErrorView::NeedsKeychainApproval,
        }
    }
}

/// What is said of an error.
pub open spec fn error_message(e: ErrorView) -> Seq<char> {
    match e {
        ErrorView::Auth(e) => "auth: "@ + auth::error_message(e),
        ErrorView::Http { status, message } => "HTTP "@ + text::decimal(status as nat) + ": "@
            + message,
        ErrorView::Transport(s) => "transport: "@ + s,
        ErrorView::Json(c) => "json: "@ + c.text,
        ErrorView::Unauthenticated => "no Granola credentials are stored"@,
        ErrorView::NeedsKeychainApproval =>
            "stored credentials were rejected, and re-importing them needs one-time approval for Granola's own Keychain item"@,
    }
}

/// Whether an error is the status of a rejected session.
pub open spec fn is_unauthorized(e: ErrorView) -> bool {
    e matches ErrorView::Http { status, .. } && status == 401
}

/// What is said of an error with each cause behind it.
pub open spec fn error_chain(e: ErrorView) -> Seq<char> {
    match e {
        ErrorView::Auth(f) => error_message(e) + ": "@ + auth::error_chain(f),
        ErrorView::Json(c) => error_message(e) + ": "@ + auth::cause_chain(c),
        _ => error_message(e),
    }
}

/// Whether an error means that the stored session is over, so that only new
/// credentials help.
pub open spec fn session_over(e: ErrorView) -> bool {
    match e {
        ErrorView::Unauthenticated => true,
        ErrorView::NeedsKeychainApproval => true,
        ErrorView::Http { status, .. } => status == 401,
        ErrorView::Auth(auth::ErrorView::RefreshRejected { .. }) => true,
        ErrorView::Auth(auth::ErrorView::NoCredentials) => true,
        _ => false,
    }
}

/// Whether an error is about credentials at all.
pub open spec fn about_credentials(e: ErrorView) -> bool {
    session_over(e) || (match e {
        ErrorView::Auth(auth::ErrorView::NoDesktopCredentials { .. }) => true,
        ErrorView::Auth(auth::ErrorView::Keyring(_)) => true,
        ErrorView::Auth(auth::ErrorView::DesktopKeyMigrated) => true,
        _ => false,
    })
}

impl Error {
    /// What went wrong, for a reader.
    pub fn message(&self) -> (r: String)
        ensures
            r@ == error_message(self@),
    {
        match self {
            Error::Auth(e) => prefixed("auth: ", e.message().as_str()),
            Error::Http { status, message } => {
                let mut out = prefixed("HTTP ", to_decimal(*status as u64).as_str());
                out.append(": ");
                out.append(message.as_str());
                out
            },
            Error::Transport(s) => prefixed("transport: ", s.as_str()),
            Error::Json(c) => prefixed("json: ", c.text.as_str()),
            Error::Unauthenticated => "no Granola credentials are stored".to_owned(),
            Error::NeedsKeychainApproval =>
                "stored credentials were rejected, and re-importing them needs one-time approval for Granola's own Keychain item".to_owned(),
        }
    }

    /// What went wrong, and each cause behind it.
    pub fn chain(&self) -> (r: String)
        ensures
            r@ == error_chain(self@),
    {
        let mut out = self.message();
        match self {
            Error::Auth(e) => {
                out.append(": ");
                out.append(e.chain().as_str());
            },
            Error::Json(c) => {
                out.append(": ");
                out.append(c.chain().as_str());
            },
            _ => {},
        }
        out
    }

    /// Whether the stored session is over, so that only new credentials help;
    /// as opposed to a fault of the network or of the service.
    pub fn needs_reauth(&self) -> (r: bool)
        ensures
            r == session_over(self@),
    {
        match self {
            Error::Unauthenticated => true,
            Error::NeedsKeychainApproval => true,
            Error::Http { status, .. } => *status == 401,
            Error::Auth(auth::Error::RefreshRejected { .. }) => true,
            Error::Auth(auth::Error::NoCredentials) => true,
            _ => false,
        }
    }

    /// Whether the error is about credentials at all, so that it deserves a
    /// hint how to get some.
    pub fn is_auth_failure(&self) -> (r: bool)
        ensures
            r == about_credentials(self@),
    {
        if self.needs_reauth() {
            return true;
        }
        match self {
            Error::Auth(auth::Error::NoDesktopCredentials { .. }) => true,
            Error::Auth(auth::Error::Keyring(_)) => true,
            Error::Auth(auth::Error::DesktopKeyMigrated) => true,
            _ => false,
        }
    }

    /// Whether the error is the status of a rejected session.
    pub fn is_unauthorized(&self) -> (r: bool)
        ensures
            r == is_unauthorized(self@),
    {
        match self {
            Error::Http { status, .. } => *status == 401,
            _ => false,
        }
    }
}

// ---- Requests ---------------------------------------------------------------

/// A client: the token that opens a session.
#[derive(Debug, PartialEq, Eq)]
pub struct Client {
    pub access_token: String,
}

impl View for Client {
    type V = Seq<char>;

    open spec fn view(&self) -> Seq<char> {
        self.access_token@
    }
}

impl Clone for Client {
    fn clone(&self) -> (r: Self)
        ensures
            r@ == self@,
    {
        Client { access_token: self.access_token.clone() }
    }
}

/// A request: its path, and its body.
#[derive(Debug, PartialEq, Eq)]
pub struct Request {
    pub path: String,
    pub body: Json,
}

/// What a [`Request`] says.
pub struct RequestView {
    pub path: Seq<char>,
    pub body: JsonView,
}

impl View for Request {
    type V = RequestView;

    open spec fn view(&self) -> RequestView {
        RequestView { path: self.path@, body: self.body@ }
    }
}

/// A request with some fields in its body.
pub open spec fn asking(path: Seq<char>, fields: Seq<(Seq<char>, JsonView)>) -> RequestView {
    RequestView { path, body: JsonView::Object(fields) }
}

/// The client of stored credentials, if there are any.
pub open spec fn stored_client(stored: Result<Option<CredentialsView>, auth::ErrorView>) -> Result<
    Seq<char>,
    ErrorView,
> {
    match stored {
        Err(e) => Err(ErrorView::Auth(e)),
        Ok(None) => Err(ErrorView::Unauthenticated),
        Ok(Some(c)) => Ok(c.access_token),
    }
}

/// The headers of every request.
pub open spec fn request_headers(
    access_token: Seq<char>,
    version: Seq<char>,
    os: Seq<char>,
    arch: Seq<char>,
) -> Seq<(Seq<char>, Seq<char>)> {
    seq![
        ("Authorization"@, "Bearer "@ + access_token),
        ("Content-Type"@, "application/json"@),
        ("X-App-Version"@, GRANOLA_CLIENT_VERSION@),
        ("X-Client-Version"@, GRANOLA_CLIENT_VERSION@),
        ("X-Client-Type"@, "cli"@),
        ("X-Client-Platform"@, os),
        ("X-Client-Architecture"@, arch),
        ("X-Client-Id"@, "granola-cli-"@ + version),
        (
            "User-Agent"@,
            "Granola/"@ + GRANOLA_CLIENT_VERSION@ + " granola-cli/"@ + version + " ("@ + os + " "@
                + arch + ")"@,
        ),
    ]
}

impl Client {
    /// A client with a token.
    pub fn new(access_token: String) -> (r: Client)
        ensures
            r@ == access_token@,
    {
        Client { access_token }
    }

    /// The client of what the keychain holds.
    pub fn from_keychain(stored: Result<Option<Credentials>, auth::Error>) -> (r: Result<
        Client,
        Error,
    >)
        ensures
            match r {
                Ok(c) => stored_client(session::stored_result(stored)) == Ok::<
                    Seq<char>,
                    ErrorView,
                >(c@),
                Err(e) => stored_client(session::stored_result(stored)) == Err::<
                    Seq<char>,
                    ErrorView,
                >(e@),
            },
    {
        match stored {
            Err(e) => Err(Error::Auth(e)),
            Ok(None) => Err(Error::Unauthenticated),
            Ok(Some(c)) => Ok(Client::new(c.access_token)),
        }
    }

    /// The headers of every request, for a version of the program and the
    /// system that it runs on.
    pub fn headers(&self, version: &str, os: &str, arch: &str) -> (r: Vec<(String, String)>)
        ensures
            session::header_views(r@) == request_headers(self@, version@, os@, arch@),
    {
        let mut agent = prefixed("Granola/", GRANOLA_CLIENT_VERSION);
        agent.append(" granola-cli/");
        agent.append(version);
        agent.append(" (");
        agent.append(os);
        agent.append(" ");
        agent.append(arch);
        agent.append(")");
        let mut out: Vec<(String, String)> = Vec::new();
        out.push(("Authorization".to_owned(), prefixed("Bearer ", self.access_token.as_str())));
        out.push(("Content-Type".to_owned(), "application/json".to_owned()));
        out.push(("X-App-Version".to_owned(), GRANOLA_CLIENT_VERSION.to_owned()));
        out.push(("X-Client-Version".to_owned(), GRANOLA_CLIENT_VERSION.to_owned()));
        out.push(("X-Client-Type".to_owned(), "cli".to_owned()));
        out.push(("X-Client-Platform".to_owned(), os.to_owned()));
        out.push(("X-Client-Architecture".to_owned(), arch.to_owned()));
        out.push(("X-Client-Id".to_owned(), prefixed("granola-cli-", version)));
        out.push(("User-Agent".to_owned(), agent));
        assert(session::header_views(out@) =~= request_headers(self@, version@, os@, arch@));
        out
    }

    /// Asks for the workspaces: the cheapest request that needs a session.
    pub fn get_workspaces(&self) -> (r: Request)
        ensures
            r@ == asking("/v1/get-workspaces"@, Seq::empty()),
    {
        Request { path: "/v1/get-workspaces".to_owned(), body: object(no_fields()) }
    }

    /// Asks for a page of owned documents.
    pub fn get_documents(&self, limit: u32, offset: u32, include_panel: bool) -> (r: Request)
        ensures
            r@ == asking(
                "/v2/get-documents"@,
                seq![
                    ("limit"@, JsonView::Number(NumberView::Unsigned(limit as u64))),
                    ("offset"@, JsonView::Number(NumberView::Unsigned(offset as u64))),
                    ("include_last_viewed_panel"@, JsonView::Bool(include_panel)),
                ],
            ),
    {
        let mut fields = no_fields();
        add_field(&mut fields, "limit", number(limit as u64));
        add_field(&mut fields, "offset", number(offset as u64));
        add_field(&mut fields, "include_last_viewed_panel", Json::Bool(include_panel));
        assert(json::field_views(fields@) =~= seq![
            ("limit"@, JsonView::Number(NumberView::Unsigned(limit as u64))),
            ("offset"@, JsonView::Number(NumberView::Unsigned(offset as u64))),
            ("include_last_viewed_panel"@, JsonView::Bool(include_panel)),
        ]);
        Request { path: "/v2/get-documents".to_owned(), body: object(fields) }
    }

    /// Asks for the document lists.
    pub fn get_document_lists(&self) -> (r: Request)
        ensures
            r@ == asking("/v2/get-document-lists"@, Seq::empty()),
    {
        Request { path: "/v2/get-document-lists".to_owned(), body: object(no_fields()) }
    }

    /// Asks for documents by their ids.
    pub fn get_documents_batch(&self, ids: &Vec<String>, include_panel: bool) -> (r: Request)
        ensures
            r@ == asking(
                "/v1/get-documents-batch"@,
                seq![
                    ("document_ids"@, json::text_array(text::text_views(ids@))),
                    ("include_last_viewed_panel"@, JsonView::Bool(include_panel)),
                ],
            ),
    {
        let mut fields = no_fields();
        add_field(&mut fields, "document_ids", text_list(ids));
        add_field(&mut fields, "include_last_viewed_panel", Json::Bool(include_panel));
        assert(json::field_views(fields@) =~= seq![
            ("document_ids"@, json::text_array(text::text_views(ids@))),
            ("include_last_viewed_panel"@, JsonView::Bool(include_panel)),
        ]);
        Request { path: "/v1/get-documents-batch".to_owned(), body: object(fields) }
    }

    /// Asks for the metadata of a document.
    pub fn get_document_metadata(&self, id: &str) -> (r: Request)
        ensures
            r@ == asking(
                "/v1/get-document-metadata"@,
                seq![("document_id"@, JsonView::Text(id@))],
            ),
    {
        Request { path: "/v1/get-document-metadata".to_owned(), body: document_id(id) }
    }

    /// Asks for the transcript of a document.
    pub fn get_document_transcript(&self, id: &str) -> (r: Request)
        ensures
            r@ == asking(
                "/v1/get-document-transcript"@,
                seq![("document_id"@, JsonView::Text(id@))],
            ),
    {
        Request { path: "/v1/get-document-transcript".to_owned(), body: document_id(id) }
    }
}

/// A body that names a document.
fn document_id(id: &str) -> (r: Json)
    ensures
        r@ == JsonView::Object(seq![("document_id"@, JsonView::Text(id@))]),
{
    let mut fields = no_fields();
    add_field(&mut fields, "document_id", text_value(id));
    assert(json::field_views(fields@) =~= seq![("document_id"@, JsonView::Text(id@))]);
    object(fields)
}

// ---- Sending ----------------------------------------------------------------

/// What came of sending a request.
pub enum Reply {
    /// A document.
    Value(Json),
    /// A document that could not be read.
    Unreadable(String),
    /// A status that is an error, with its text.
    Status(u16, String),
    /// The service could not be reached.
    Unreachable(String),
}

/// What a [`Reply`] says.
pub enum ReplyView {
    Value(JsonView),
    Unreadable(Seq<char>),
    Status(u16, Seq<char>),
    Unreachable(Seq<char>),
}

impl View for Reply {
    type V = ReplyView;

    open spec fn view(&self) -> ReplyView {
        match self {
            Reply::Value(v) => ReplyView::Value(v@),
            Reply::Unreadable(s) => ReplyView::Unreadable(s@),
            Reply::Status(n, s) => ReplyView::Status(*n, s@),
            Reply::Unreachable(s) => ReplyView::Unreachable(s@),
        }
    }
}

/// What is to be done after a reply.
pub enum Sending {
    /// The document is here.
    Received(Json),
    /// Wait so many milliseconds, and send again.
    Again { wait_ms: u64 },
    /// The request brought nothing.
    Failed(Error),
}

/// What a [`Sending`] says.
pub enum SendingView {
    Received(JsonView),
    Again { wait_ms: u64 },
    Failed(ErrorView),
}

impl View for Sending {
    type V = SendingView;

    open spec fn view(&self) -> SendingView {
        match self {
            Sending::Received(v) => SendingView::Received(v@),
            Sending::Again { wait_ms } => SendingView::Again { wait_ms: *wait_ms },
            Sending::Failed(e) => SendingView::Failed(e@),
        }
    }
}

/// Whether a status may pass when the request is sent again: the service is
/// asked too often, or failed by a fault of its own.
pub open spec fn may_pass(status: u16) -> bool {
    status == 429 || 500 <= status <= 599
}

/// How long to wait after an attempt: twice as long each time.
pub open spec fn backoff(attempt: nat) -> nat
    decreases attempt,
{
    if attempt == 0 {
        BASE_BACKOFF_MS as nat
    } else {
        2 * backoff((attempt - 1) as nat)
    }
}

/// What is to be done after the reply to an attempt, the first being zero. A
/// rejected session is reported at once; a busy service is asked again, as long
/// as attempts are left.
pub open spec fn after_attempt(attempt: u32, reply: ReplyView) -> SendingView {
    match reply {
        ReplyView::Value(v) => SendingView::Received(v),
        ReplyView::Unreadable(s) => SendingView::Failed(ErrorView::Transport(s)),
        ReplyView::Unreachable(s) => SendingView::Failed(ErrorView::Transport(s)),
        ReplyView::Status(status, message) => if status == 401 {
            SendingView::Failed(ErrorView::Http { status, message: "unauthorized"@ })
        } else if may_pass(status) && attempt < MAX_RETRIES {
            SendingView::Again { wait_ms: backoff(attempt as nat) as u64 }
        } else {
            SendingView::Failed(ErrorView::Http { status, message })
        },
    }
}

/// How long to wait after an attempt.
fn wait_after(attempt: u32) -> (r: u64)
    requires
        attempt < MAX_RETRIES,
    ensures
        r == backoff(attempt as nat),
{
    let mut wait: u64 = BASE_BACKOFF_MS;
    let mut i: u32 = 0;
    while i < attempt
        invariant
            i <= attempt < MAX_RETRIES,
            wait == backoff(i as nat),
            i == 0 ==> wait == 250,
            i == 1 ==> wait == 500,
            i == 2 ==> wait == 1000,
        decreases attempt - i,
    {
        wait = wait * 2;
        i += 1;
    }
    wait
}

/// What is to be done after the reply to an attempt.
pub fn post(attempt: u32, reply: Reply) -> (r: Sending)
    ensures
        r@ == after_attempt(attempt, reply@),
{
    match reply {
        Reply::Value(v) => Sending::Received(v),
        Reply::Unreadable(s) => Sending::Failed(Error::Transport(s)),
        Reply::Unreachable(s) => Sending::Failed(Error::Transport(s)),
        Reply::Status(status, message) => if status == 401 {
            Sending::Failed(Error::Http { status, message: "unauthorized".to_owned() })
        } else if (status == 429 || (500 <= status && status <= 599)) && attempt < MAX_RETRIES {
            Sending::Again { wait_ms: wait_after(attempt) }
        } else {
            Sending::Failed(Error::Http { status, message })
        },
    }
}

// ---- What holds of the interface --------------------------------------------

/// A request is sent at most once more than there are retries: after the last
/// attempt nothing is sent again.
pub proof fn law_retries_are_bounded(attempt: u32, reply: ReplyView)
    ensures
        after_attempt(attempt, reply) is Again ==> attempt < MAX_RETRIES,
{
}

/// The waits double: a quarter, a half, and one second.
pub proof fn law_waits_double(attempt: u32, reply: ReplyView)
    ensures
        after_attempt(attempt, reply) matches SendingView::Again { wait_ms } ==> wait_ms == (
        if attempt == 0 {
            250
        } else if attempt == 1 {
            500
        } else {
            1000int
        }),
{
    reveal_with_fuel(backoff, 4);
}

/// A rejected session is never retried here, whatever the attempt.
pub proof fn law_rejection_is_reported_at_once(attempt: u32, message: Seq<char>)
    ensures
        after_attempt(attempt, ReplyView::Status(401, message)) matches SendingView::Failed(e)
            && is_unauthorized(e),
{
}

/// Whatever ends a session is about credentials.
pub proof fn law_session_over_is_about_credentials(e: ErrorView)
    ensures
        session_over(e) ==> about_credentials(e),
        is_unauthorized(e) ==> session_over(e),
{
}

/// A reply ends a request with its document, or with what went wrong; only a
/// status of too many requests or of the service's own fault is tried again,
/// three times.
pub proof fn law_replies_decide(attempt: u32, v: JsonView, status: u16, s: Seq<char>)
    ensures
        after_attempt(attempt, ReplyView::Value(v)) == SendingView::Received(v),
        after_attempt(attempt, ReplyView::Unreadable(s)) == SendingView::Failed(
            ErrorView::Transport(s),
        ),
        after_attempt(attempt, ReplyView::Unreachable(s)) == SendingView::Failed(
            ErrorView::Transport(s),
        ),
        after_attempt(attempt, ReplyView::Status(status, s)) is Again <==> attempt < 3 && (status
            == 429 || 500 <= status <= 599),
        !(after_attempt(attempt, ReplyView::Status(status, s)) is Again) && status != 401
            ==> after_attempt(attempt, ReplyView::Status(status, s)) == SendingView::Failed(
            ErrorView::Http { status, message: s },
        ),
        status == 401 ==> after_attempt(attempt, ReplyView::Status(status, s))
            == SendingView::Failed(ErrorView::Http { status: 401, message: "unauthorized"@ }),
{
}

/// What is said of an error names its cause.
pub proof fn law_errors_tell_their_cause(
    status: u16,
    s: Seq<char>,
    c: CauseView,
    e: auth::ErrorView,
)
    ensures
        error_message(ErrorView::Http { status, message: s }) == "HTTP "@ + text::decimal(
            status as nat,
        ) + ": "@ + s,
        error_message(ErrorView::Transport(s)) == "transport: "@ + s,
        error_message(ErrorView::Json(c)) == "json: "@ + c.text,
        error_message(ErrorView::Auth(e)) == "auth: "@ + auth::error_message(e),
        error_chain(ErrorView::Auth(e)) == "auth: "@ + auth::error_message(e) + ": "@
            + auth::error_chain(e),
        error_chain(ErrorView::Transport(s)) == "transport: "@ + s,
{
}

/// A session is over exactly where there are no credentials, where the service
/// or the one that renews them rejected them, or where a person must approve an
/// import.
pub proof fn law_sessions_are_over(e: ErrorView)
    ensures
        session_over(e) <==> {
            ||| e is Unauthenticated
            ||| e is NeedsKeychainApproval
            ||| e matches ErrorView::Http { status, .. } && status == 401
            ||| e matches ErrorView::Auth(f) && (f is RefreshRejected || f is NoCredentials)
        },
        about_credentials(e) <==> {
            ||| e is Unauthenticated
            ||| e is NeedsKeychainApproval
            ||| e matches ErrorView::Http { status, .. } && status == 401
            ||| e matches ErrorView::Auth(f) && (f is RefreshRejected || f is NoCredentials || f
                is NoDesktopCredentials || f is Keyring || f is DesktopKeyMigrated)
        },
        is_unauthorized(e) <==> (e matches ErrorView::Http { status, .. } && status == 401),
{
}

/// A client is made of the access token that is kept; without credentials there
/// is none.
pub proof fn law_client_has_the_kept_token(c: CredentialsView, e: auth::ErrorView)
    ensures
        stored_client(Ok(Some(c))) == Ok::<Seq<char>, ErrorView>(c.access_token),
        stored_client(Ok(None)) == Err::<Seq<char>, ErrorView>(ErrorView::Unauthenticated),
        stored_client(Err(e)) == Err::<Seq<char>, ErrorView>(ErrorView::Auth(e)),
{
}

/// Every request bears the access token, and says which client sends it from
/// where.
pub proof fn law_requests_bear_the_token(
    token: Seq<char>,
    version: Seq<char>,
    os: Seq<char>,
    arch: Seq<char>,
)
    ensures
        ({
            let h = request_headers(token, version, os, arch);
            &&& h.contains(("Authorization"@, "Bearer "@ + token))
            &&& h.contains(("Content-Type"@, "application/json"@))
            &&& h.contains(("X-Client-Type"@, "cli"@))
            &&& h.contains(("X-Client-Platform"@, os))
            &&& h.contains(("X-Client-Architecture"@, arch))
            &&& h.contains(("X-Client-Id"@, "granola-cli-"@ + version))
            &&& h.contains(("X-App-Version"@, GRANOLA_CLIENT_VERSION@))
            &&& h.contains(("X-Client-Version"@, GRANOLA_CLIENT_VERSION@))
            &&& h.len() == 9
        }),
{
    let h = request_headers(token, version, os, arch);
    assert(h[0] == ("Authorization"@, "Bearer "@ + token));
    assert(h[1] == ("Content-Type"@, "application/json"@));
    assert(h[2] == ("X-App-Version"@, GRANOLA_CLIENT_VERSION@));
    assert(h[3] == ("X-Client-Version"@, GRANOLA_CLIENT_VERSION@));
    assert(h[4] == ("X-Client-Type"@, "cli"@));
    assert(h[5] == ("X-Client-Platform"@, os));
    assert(h[6] == ("X-Client-Architecture"@, arch));
    assert(h[7] == ("X-Client-Id"@, "granola-cli-"@ + version));
}

/// A request asks at its path with its fields, at the service's address.
pub proof fn law_requests_ask_at_their_path(path: Seq<char>, fields: Seq<(Seq<char>, JsonView)>)
    ensures
        asking(path, fields).path == path,
        asking(path, fields).body == JsonView::Object(fields),
        BASE_URL@ == "https://api.granola.ai"@,
        GRANOLA_CLIENT_VERSION@ == "7.427.3"@,
{
}

/// What lies behind a document that could not be read is told after it.
pub proof fn law_unread_documents_are_told(c: CauseView, s: Seq<char>, status: u16)
    ensures
        error_chain(ErrorView::Json(c)) == "json: "@ + c.text + ": "@ + auth::cause_chain(c),
        error_chain(ErrorView::Unauthenticated) == "no Granola credentials are stored"@,
        error_chain(ErrorView::Http { status, message: s }) == "HTTP "@ + text::decimal(
            status as nat,
        ) + ": "@ + s,
{
}

} // verus!
