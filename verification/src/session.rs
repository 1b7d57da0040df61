//! A session from login to renewal: what is exchanged, what is saved, and when
//! it may be used.

use crate::auth;
use crate::auth::{
    has_fields, Cause, CauseView, Credentials, CredentialsView, Error, ErrorView,
    GRANOLA_CLIENT_VERSION,
};
use crate::desktop;
use crate::desktop::{
    load_credentials_from_file, load_legacy_refresh_credentials, DesktopFiles, FilesView,
    KeyReading, KeyView, Platform,
};
use crate::frames;
use crate::frames::read_record;
use crate::json;
use crate::json::{add_field, no_fields, object, text_value, Json, JsonView};
use crate::text;
use vstd::prelude::*;

verus! {

/// Where a session on macOS is renewed.
pub const GRANOLA_REFRESH_URL: &'static str = "https://api.granola.ai/v1/refresh-access-token";

/// Where a session on other systems is renewed.
pub const WORKOS_AUTH_URL: &'static str =
    "https://api.workos.com/user_management/authenticate";

// ---- Credentials in the keychain --------------------------------------------

/// Credentials as the keychain holds them.
pub open spec fn credentials_json(c: CredentialsView) -> JsonView {
    JsonView::Object(
        seq![
            ("refreshToken"@, JsonView::Text(c.refresh_token)),
            ("accessToken"@, JsonView::Text(c.access_token)),
            ("clientId"@, JsonView::Text(c.client_id)),
        ],
    )
}

/// The fields of credentials in the keychain.
pub open spec fn kept_keys() -> Seq<Seq<char>> {
    seq!["refreshToken"@, "accessToken"@, "clientId"@]
}

/// The fields of credentials in the keychain.
fn name_kept_keys() -> (r: Vec<&'static str>)
    ensures
        text::literal_views(r@) == kept_keys(),
{
    let r: Vec<&'static str> = vec!["refreshToken", "accessToken", "clientId"];
    assert(text::literal_views(r@) =~= kept_keys());
    r
}

/// The credentials in what the keychain holds: an object, in which only the
/// access token may be missing and none may stand twice, or an array of the
/// three texts.
pub open spec fn kept_credentials(v: JsonView) -> Option<CredentialsView> {
    let (refresh_token, access_token, client_id) = match v {
        JsonView::Object(fields) => (
            json::lookup(fields, "refreshToken"@),
            json::first_of(json::lookup(fields, "accessToken"@), Some(JsonView::Text(""@))),
            json::lookup(fields, "clientId"@),
        ),
        JsonView::Array(items) => (Some(items[0]), Some(items[1]), Some(items[2])),
        _ => (None, None, None),
    };
    match (json::text_in(refresh_token), json::text_in(access_token), json::text_in(client_id)) {
        (Some(refresh_token), Some(access_token), Some(client_id)) => if auth::is_record(
            v,
            kept_keys(),
        ) {
            Some(CredentialsView { refresh_token, access_token, client_id })
        } else {
            None
        },
        _ => None,
    }
}

/// The credentials in the text that the keychain holds.
pub open spec fn kept_credentials_in(s: Seq<char>) -> Option<CredentialsView> {
    match frames::record_in(s, kept_keys()) {
        Some(v) => kept_credentials(v),
        None => None,
    }
}

impl Credentials {
    /// The credentials as the keychain holds them.
    pub fn to_json(&self) -> (r: Json)
        ensures
            r@ == credentials_json(self@),
    {
        let mut fields = no_fields();
        add_field(&mut fields, "refreshToken", text_value(self.refresh_token.as_str()));
        add_field(&mut fields, "accessToken", text_value(self.access_token.as_str()));
        add_field(&mut fields, "clientId", text_value(self.client_id.as_str()));
        assert(json::field_views(fields@) =~= credentials_json(self@)->Object_0);
        object(fields)
    }

    /// The credentials in what the keychain holds.
    pub fn from_json(v: &Json) -> (r: Option<Credentials>)
        ensures
            json::seen(r) == kept_credentials(v@),
    {
        if !has_fields(v, &name_kept_keys()) {
            return None;
        }
        let (refresh_token, access_token, client_id) = match v {
            Json::Object(_) => {
                let access = match v.get("accessToken") {
                    Some(w) => w.as_str(),
                    None => Some(""),
                };
                (v.text("refreshToken"), access, v.text("clientId"))
            },
            Json::Array(items) => {
                proof {
                    json::lemma_array_view(*items);
                    assert(json::views(items@).len() == items@.len());
                    assert(json::views(items@)[0] == items@[0]@);
                    assert(json::views(items@)[1] == items@[1]@);
                    assert(json::views(items@)[2] == items@[2]@);
                }
                (items[0].as_str(), items[1].as_str(), items[2].as_str())
            },
            _ => (None, None, None),
        };
        match (refresh_token, access_token, client_id) {
            (Some(a), Some(b), Some(c)) => Some(
                Credentials {
                    refresh_token: a.to_owned(),
                    access_token: b.to_owned(),
                    client_id: c.to_owned(),
                },
            ),
            _ => None,
        }
    }

    /// The credentials in the text that the keychain holds.
    pub fn from_text(text: &str) -> (r: Option<Credentials>)
        ensures
            json::seen(r) == kept_credentials_in(text@),
    {
        match read_record(text, &name_kept_keys()) {
            Some(v) => Credentials::from_json(&v),
            None => None,
        }
    }
}

/// What was saved is what is read.
pub proof fn law_saved_credentials_are_read_back(c: CredentialsView)
    ensures
        kept_credentials(credentials_json(c)) == Some(c),
{
    let fields = credentials_json(c)->Object_0;
    reveal_strlit("refreshToken");
    reveal_strlit("accessToken");
    reveal_strlit("clientId");
    assert("refreshToken"@[0] != "accessToken"@[0]);
    assert("refreshToken"@[0] != "clientId"@[0]);
    assert("accessToken"@[0] != "clientId"@[0]);
    let rest = fields.drop_first();
    assert(rest[0] == fields[1]);
    assert(rest.drop_first()[0] == fields[2]);
    assert(json::lookup(fields, "refreshToken"@) == Some(JsonView::Text(c.refresh_token)));
    assert(json::lookup(rest, "accessToken"@) == Some(JsonView::Text(c.access_token)));
    assert(json::lookup(rest.drop_first(), "clientId"@) == Some(JsonView::Text(c.client_id)));
    assert(json::lookup(rest, "clientId"@) == Some(JsonView::Text(c.client_id)));
    assert forall|i: int| 0 <= i < kept_keys().len() implies json::times(
        fields,
        #[trigger] kept_keys()[i],
    ) <= 1 by {
        let two = fields.drop_last();
        let one = two.drop_last();
        assert(two.last() == fields[1] && one.last() == fields[0]);
        assert(one.drop_last().len() == 0);
        assert(json::times(one.drop_last(), kept_keys()[i]) == 0);
        assert(json::times(one, kept_keys()[i]) == (if fields[0].0 == kept_keys()[i] {
            1nat
        } else {
            0
        }));
        assert(json::times(two, kept_keys()[i]) == json::times(one, kept_keys()[i]) + (if fields[1].0
            == kept_keys()[i] {
            1nat
        } else {
            0
        }));
    }
}

// ---- Exchange ---------------------------------------------------------------

/// A request that renews a session.
pub struct RefreshRequest {
    pub url: String,
    pub headers: Vec<(String, String)>,
    pub body: Json,
}

/// What a [`RefreshRequest`] says.
#[verifier::ext_equal]
pub struct RefreshRequestView {
    pub url: Seq<char>,
    pub headers: Seq<(Seq<char>, Seq<char>)>,
    pub body: JsonView,
}

/// What the headers of a list say.
pub open spec fn header_views(s: Seq<(String, String)>) -> Seq<(Seq<char>, Seq<char>)> {
    Seq::new(s.len(), |i: int| (s[i].0@, s[i].1@))
}

impl View for RefreshRequest {
    type V = RefreshRequestView;

    open spec fn view(&self) -> RefreshRequestView {
        RefreshRequestView {
            url: self.url@,
            headers: header_views(self.headers@),
            body: self.body@,
        }
    }
}

/// The request that renews a session.
pub open spec fn renewal(platform: Platform, c: CredentialsView) -> RefreshRequestView {
    if platform == Platform::MacOs {
        RefreshRequestView {
            url: GRANOLA_REFRESH_URL@,
            headers: seq![
                ("Accept"@, "*/*"@),
                ("User-Agent"@, "Granola/"@ + GRANOLA_CLIENT_VERSION@),
                ("X-Client-Version"@, GRANOLA_CLIENT_VERSION@),
                ("X-Granola-Platform"@, "darwin"@),
            ],
            body: JsonView::Object(seq![("refresh_token"@, JsonView::Text(c.refresh_token))]),
        }
    } else {
        RefreshRequestView {
            url: WORKOS_AUTH_URL@,
            headers: Seq::empty(),
            body: JsonView::Object(
                seq![
                    ("client_id"@, JsonView::Text(c.client_id)),
                    ("grant_type"@, JsonView::Text("refresh_token"@)),
                    ("refresh_token"@, JsonView::Text(c.refresh_token)),
                ],
            ),
        }
    }
}

/// The request that renews a session.
pub fn refresh_request(platform: Platform, creds: &Credentials) -> (r: RefreshRequest)
    ensures
        r@ == renewal(platform, creds@),
{
    let mut headers: Vec<(String, String)> = Vec::new();
    let mut fields = no_fields();
    let url = if platform == Platform::MacOs {
        let mut agent: String = "Granola/".to_owned();
        agent.append(GRANOLA_CLIENT_VERSION);
        headers.push(("Accept".to_owned(), "*/*".to_owned()));
        headers.push(("User-Agent".to_owned(), agent));
        headers.push(("X-Client-Version".to_owned(), GRANOLA_CLIENT_VERSION.to_owned()));
        headers.push(("X-Granola-Platform".to_owned(), "darwin".to_owned()));
        add_field(&mut fields, "refresh_token", text_value(creds.refresh_token.as_str()));
        GRANOLA_REFRESH_URL.to_owned()
    } else {
        add_field(&mut fields, "client_id", text_value(creds.client_id.as_str()));
        add_field(&mut fields, "grant_type", text_value("refresh_token"));
        add_field(&mut fields, "refresh_token", text_value(creds.refresh_token.as_str()));
        WORKOS_AUTH_URL.to_owned()
    };
    assert(header_views(headers@) =~= renewal(platform, creds@).headers);
    assert(json::field_views(fields@) =~= renewal(platform, creds@).body->Object_0);
    RefreshRequest { url, headers, body: object(fields) }
}

/// What the desktop app's service answers: a new access token, and a new
/// refresh token if the old one was used up.
#[derive(Debug, PartialEq, Eq)]
pub struct GranolaRefreshResponse {
    pub access_token: String,
    pub refresh_token: Option<String>,
}

/// What WorkOS answers: a new pair of tokens.
#[derive(Debug, PartialEq, Eq)]
pub struct WorkOsRefreshResponse {
    pub access_token: String,
    pub refresh_token: String,
}

/// What came of a request that renews a session.
pub enum RefreshReply {
    /// The service answered with a status that is an error.
    Rejected(u16),
    /// The service could not be reached.
    Network(Cause),
    /// The answer could not be read.
    Unreadable(Cause),
    /// The desktop app's service answered.
    Granola(GranolaRefreshResponse),
    /// WorkOS answered.
    WorkOs(WorkOsRefreshResponse),
}

/// What a [`RefreshReply`] says; of an answer, its access token and its refresh
/// token.
pub enum ReplyView {
    Rejected(u16),
    Network(CauseView),
    Unreadable(CauseView),
    Granola(Seq<char>, Option<Seq<char>>),
    WorkOs(Seq<char>, Seq<char>),
}

impl View for RefreshReply {
    type V = ReplyView;

    open spec fn view(&self) -> ReplyView {
        match self {
            RefreshReply::Rejected(n) => ReplyView::Rejected(*n),
            RefreshReply::Network(c) => ReplyView::Network(c@),
            RefreshReply::Unreadable(c) => ReplyView::Unreadable(c@),
            RefreshReply::Granola(a) => ReplyView::Granola(
                a.access_token@,
                json::seen(a.refresh_token),
            ),
            RefreshReply::WorkOs(a) => ReplyView::WorkOs(a.access_token@, a.refresh_token@),
        }
    }
}

/// The credentials after an answer of the desktop app's service: a refresh
/// token that is missing or empty leaves the old one in use.
pub open spec fn rotated(
    current: CredentialsView,
    access_token: Seq<char>,
    refresh_token: Option<Seq<char>>,
) -> CredentialsView {
    CredentialsView {
        refresh_token: match refresh_token {
            Some(s) => if s.len() == 0 {
                current.refresh_token
            } else {
                s
            },
            None => current.refresh_token,
        },
        access_token,
        client_id: current.client_id,
    }
}

/// The credentials after a request that renews a session.
pub open spec fn exchanged(current: CredentialsView, reply: ReplyView) -> Result<
    CredentialsView,
    ErrorView,
> {
    match reply {
        ReplyView::Rejected(status) => Err(ErrorView::RefreshRejected { status }),
        ReplyView::Network(c) => Err(ErrorView::Http(c)),
        ReplyView::Unreadable(c) => Err(ErrorView::Io(c)),
        ReplyView::Granola(access_token, refresh_token) => Ok(
            rotated(current, access_token, refresh_token),
        ),
        ReplyView::WorkOs(access_token, refresh_token) => Ok(
            CredentialsView { refresh_token, access_token, client_id: current.client_id },
        ),
    }
}

/// The credentials after an answer of the desktop app's service.
pub fn credentials_from_granola_refresh(
    current: &Credentials,
    refreshed: GranolaRefreshResponse,
) -> (r: Credentials)
    ensures
        r@ == rotated(current@, refreshed.access_token@, json::seen(refreshed.refresh_token)),
{
    let refresh_token = match refreshed.refresh_token {
        Some(s) => if s.as_str().is_empty() {
            current.refresh_token.clone()
        } else {
            s
        },
        None => current.refresh_token.clone(),
    };
    Credentials {
        refresh_token,
        access_token: refreshed.access_token,
        client_id: current.client_id.clone(),
    }
}

/// The credentials after a request that renews a session.
pub fn exchange_refresh_token(current: &Credentials, reply: RefreshReply) -> (r: Result<
    Credentials,
    Error,
>)
    ensures
        desktop::credentials_result(r) == exchanged(current@, reply@),
{
    match reply {
        RefreshReply::Rejected(status) => Err(Error::RefreshRejected { status }),
        RefreshReply::Network(c) => Err(Error::Http(c)),
        RefreshReply::Unreadable(c) => Err(Error::Io(c)),
        RefreshReply::Granola(a) => Ok(credentials_from_granola_refresh(current, a)),
        RefreshReply::WorkOs(a) => Ok(
            Credentials {
                refresh_token: a.refresh_token,
                access_token: a.access_token,
                client_id: current.client_id.clone(),
            },
        ),
    }
}

// ---- Steps ------------------------------------------------------------------

/// Where credentials came from.
#[derive(Debug, Clone, Copy, PartialEq, Eq, Structural)]
pub enum CredentialSource {
    /// They were in the keychain.
    Keychain,
    /// They were in the desktop app's files.
    DesktopImport,
    /// A refresh token that the desktop app left was exchanged for them.
    Bootstrap,
}

/// The name of a source.
pub open spec fn source_name(s: CredentialSource) -> Seq<char> {
    match s {
        CredentialSource::Keychain => "keychain"@,
        CredentialSource::DesktopImport => "desktop_import"@,
        CredentialSource::Bootstrap => "bootstrap"@,
    }
}

impl CredentialSource {
    /// The name of the source.
    pub fn name(&self) -> (r: &'static str)
        ensures
            r@ == source_name(*self),
    {
        match self {
            CredentialSource::Keychain => "keychain",
            CredentialSource::DesktopImport => "desktop_import",
            CredentialSource::Bootstrap => "bootstrap",
        }
    }
}

/// What is to be done next on the way to credentials.
pub enum Step {
    /// Exchange the refresh token of these credentials.
    Exchange(Credentials, CredentialSource),
    /// Save these credentials.
    Save(Credentials, CredentialSource),
    /// These credentials are saved, and may be used.
    Done(Credentials, CredentialSource),
    /// There are no credentials.
    Failed(Error),
}

/// What a [`Step`] says.
pub enum StepView {
    Exchange(CredentialsView, CredentialSource),
    Save(CredentialsView, CredentialSource),
    Done(CredentialsView, CredentialSource),
    Failed(ErrorView),
}

impl View for Step {
    type V = StepView;

    open spec fn view(&self) -> StepView {
        match self {
            Step::Exchange(c, s) => StepView::Exchange(c@, *s),
            Step::Save(c, s) => StepView::Save(c@, *s),
            Step::Done(c, s) => StepView::Done(c@, *s),
            Step::Failed(e) => StepView::Failed(e@),
        }
    }
}

/// The first step of a login: imported credentials are saved; where the
/// desktop app's key has moved away, the refresh token that it left is
/// exchanged.
pub open spec fn login_step(
    platform: Platform,
    files: Option<FilesView>,
    key: KeyView,
) -> StepView {
    match desktop::imported(platform, files, key) {
        Ok(c) => StepView::Save(c, CredentialSource::DesktopImport),
        Err(ErrorView::DesktopKeyMigrated) => match desktop::legacy_credentials(files) {
            Ok(c) => StepView::Exchange(c, CredentialSource::Bootstrap),
            Err(e) => StepView::Failed(e),
        },
        Err(e) => StepView::Failed(e),
    }
}

/// The first step of a renewal, given what the keychain holds.
pub open spec fn renewal_step(stored: Result<Option<CredentialsView>, ErrorView>) -> StepView {
    match stored {
        Err(e) => StepView::Failed(e),
        Ok(None) => StepView::Failed(ErrorView::NoCredentials),
        Ok(Some(c)) => if c.refresh_token.len() == 0 {
            StepView::Failed(ErrorView::NoCredentials)
        } else {
            StepView::Exchange(c, CredentialSource::Keychain)
        },
    }
}

/// The step after an exchange.
pub open spec fn step_after_exchange(
    current: CredentialsView,
    source: CredentialSource,
    reply: ReplyView,
) -> StepView {
    match exchanged(current, reply) {
        Ok(c) => StepView::Save(c, source),
        Err(e) => StepView::Failed(e),
    }
}

/// The step after credentials were handed to the keychain.
pub open spec fn step_after_save(
    c: CredentialsView,
    source: CredentialSource,
    failure: Option<ErrorView>,
) -> StepView {
    match failure {
        None => StepView::Done(c, source),
        Some(e) => StepView::Failed(e),
    }
}

/// What a result of reading the keychain says.
pub open spec fn stored_result(r: Result<Option<Credentials>, Error>) -> Result<
    Option<CredentialsView>,
    ErrorView,
> {
    match r {
        Ok(o) => Ok(json::seen(o)),
        Err(e) => Err(e@),
    }
}

/// The first step of a login: credentials from the desktop app, to be saved or
/// to be exchanged.
pub fn login(platform: Platform, files: Option<&DesktopFiles>, key: KeyReading) -> (r: Step)
    ensures
        r@ == login_step(platform, json::seen(files), key@),
{
    match load_credentials_from_file(platform, files, key) {
        Ok(c) => Step::Save(c, CredentialSource::DesktopImport),
        Err(Error::DesktopKeyMigrated) => match load_legacy_refresh_credentials(files) {
            Ok(c) => Step::Exchange(c, CredentialSource::Bootstrap),
            Err(e) => Step::Failed(e),
        },
        Err(e) => Step::Failed(e),
    }
}

/// The first step of a renewal, given what the keychain holds. It is to be read
/// under the lock: another process may have renewed the session already.
pub fn refresh_access_token(stored: Result<Option<Credentials>, Error>) -> (r: Step)
    ensures
        r@ == renewal_step(stored_result(stored)),
{
    match stored {
        Err(e) => Step::Failed(e),
        Ok(None) => Step::Failed(Error::NoCredentials),
        Ok(Some(c)) => if c.refresh_token.as_str().is_empty() {
            Step::Failed(Error::NoCredentials)
        } else {
            Step::Exchange(c, CredentialSource::Keychain)
        },
    }
}

/// The step after an exchange: the new credentials are to be saved.
pub fn after_exchange(
    current: &Credentials,
    source: CredentialSource,
    reply: RefreshReply,
) -> (r: Step)
    ensures
        r@ == step_after_exchange(current@, source, reply@),
{
    match exchange_refresh_token(current, reply) {
        Ok(c) => Step::Save(c, source),
        Err(e) => Step::Failed(e),
    }
}

/// The step after credentials were handed to the keychain.
pub fn after_save(creds: Credentials, source: CredentialSource, failure: Option<Error>) -> (r: Step)
    ensures
        r@ == step_after_save(creds@, source, json::seen(failure)),
{
    match failure {
        None => Step::Done(creds, source),
        Some(e) => Step::Failed(e),
    }
}

// ---- What holds of a session ------------------------------------------------

/// Nothing is used before it is saved: only the step after saving hands
/// credentials out, and then exactly those that were saved.
pub proof fn law_nothing_is_used_unsaved(
    platform: Platform,
    files: Option<FilesView>,
    key: KeyView,
    stored: Result<Option<CredentialsView>, ErrorView>,
    c: CredentialsView,
    source: CredentialSource,
    reply: ReplyView,
    failure: Option<ErrorView>,
)
    ensures
        !(login_step(platform, files, key) is Done),
        !(renewal_step(stored) is Done),
        !(step_after_exchange(c, source, reply) is Done),
        step_after_save(c, source, failure) is Done <==> failure is None,
        step_after_save(c, source, failure) is Done ==> step_after_save(c, source, failure)
            == StepView::Done(c, source),
{
}

/// Only a refresh token that is there is exchanged.
pub proof fn law_only_tokens_are_exchanged(
    platform: Platform,
    files: Option<FilesView>,
    key: KeyView,
    stored: Result<Option<CredentialsView>, ErrorView>,
)
    ensures
        login_step(platform, files, key) matches StepView::Exchange(c, s) ==> c.refresh_token.len()
            > 0 && s == CredentialSource::Bootstrap,
        renewal_step(stored) matches StepView::Exchange(c, s) ==> c.refresh_token.len() > 0 && s
            == CredentialSource::Keychain,
{
    desktop::law_state_tells_of_the_refresh_token(files);
}

/// An answer of the desktop app's service never loses the refresh token, and
/// never changes the client.
pub proof fn law_rotation_keeps_the_session(
    current: CredentialsView,
    access_token: Seq<char>,
    refresh_token: Option<Seq<char>>,
)
    requires
        current.refresh_token.len() > 0,
    ensures
        rotated(current, access_token, refresh_token).refresh_token.len() > 0,
        rotated(current, access_token, refresh_token).client_id == current.client_id,
        rotated(current, access_token, refresh_token).access_token == access_token,
        refresh_token matches Some(s) ==> s.len() > 0 ==> rotated(
            current,
            access_token,
            refresh_token,
        ).refresh_token == s,
{
}

/// An answer of WorkOS brings both tokens of the session that is saved, under
/// the client of the old one; an answer of the desktop app's service brings the
/// access token, and the refresh token unless it sends none. Where the
/// credentials came from is kept.
pub proof fn law_new_tokens_are_saved(
    current: CredentialsView,
    source: CredentialSource,
    a: Seq<char>,
    r: Seq<char>,
)
    ensures
        step_after_exchange(current, source, ReplyView::WorkOs(a, r)) matches StepView::Save(c, s)
            && s == source && c.access_token == a && c.refresh_token == r && c.client_id
            == current.client_id,
        r.len() > 0 ==> (step_after_exchange(
            current,
            source,
            ReplyView::Granola(a, Some(r)),
        ) matches StepView::Save(c, s) && s == source && c.access_token == a && c.refresh_token
            == r && c.client_id == current.client_id),
        r.len() == 0 ==> (step_after_exchange(
            current,
            source,
            ReplyView::Granola(a, Some(r)),
        ) matches StepView::Save(c, s) && s == source && c.access_token == a && c.refresh_token
            == current.refresh_token && c.client_id == current.client_id),
        step_after_exchange(current, source, ReplyView::Granola(a, None)) matches StepView::Save(
            c,
            s,
        ) && s == source && c.access_token == a && c.refresh_token == current.refresh_token
            && c.client_id == current.client_id,
        exchanged(current, ReplyView::WorkOs(a, r)) matches Ok(c) && c.access_token == a
            && c.refresh_token == r && c.client_id == current.client_id,
        exchanged(current, ReplyView::Granola(a, None)) matches Ok(c) && c.access_token == a
            && c.refresh_token == current.refresh_token && c.client_id == current.client_id,
        r.len() > 0 ==> (exchanged(current, ReplyView::Granola(a, Some(r))) matches Ok(c)
            && c.access_token == a && c.refresh_token == r && c.client_id == current.client_id),
{
}

/// A renewal that fails says why: with the status of the service, or with what
/// stood in the way; and nothing is saved.
pub proof fn law_failed_renewal_is_told(
    current: CredentialsView,
    source: CredentialSource,
    status: u16,
    cause: CauseView,
)
    ensures
        step_after_exchange(current, source, ReplyView::Rejected(status)) == StepView::Failed(
            ErrorView::RefreshRejected { status },
        ),
        step_after_exchange(current, source, ReplyView::Network(cause)) == StepView::Failed(
            ErrorView::Http(cause),
        ),
        step_after_exchange(current, source, ReplyView::Unreadable(cause)) == StepView::Failed(
            ErrorView::Io(cause),
        ),
        exchanged(current, ReplyView::Rejected(status)) == Err::<CredentialsView, ErrorView>(
            ErrorView::RefreshRejected { status },
        ),
{
}

/// A renewal exchanges what the keychain holds, as it is, if it has a refresh
/// token; else there are no credentials. A keychain that fails is told of.
pub proof fn law_renewal_takes_what_is_kept(c: CredentialsView, e: ErrorView)
    ensures
        c.refresh_token.len() > 0 ==> renewal_step(Ok(Some(c))) == StepView::Exchange(
            c,
            CredentialSource::Keychain,
        ),
        c.refresh_token.len() == 0 ==> renewal_step(Ok(Some(c))) == StepView::Failed(
            ErrorView::NoCredentials,
        ),
        renewal_step(Ok(None)) == StepView::Failed(ErrorView::NoCredentials),
        renewal_step(Err(e)) == StepView::Failed(e),
{
}

/// A keychain that refuses credentials ends the way with its error.
pub proof fn law_unsaved_credentials_are_lost(
    c: CredentialsView,
    source: CredentialSource,
    e: ErrorView,
)
    ensures
        step_after_save(c, source, Some(e)) == StepView::Failed(e),
        step_after_save(c, source, None) == StepView::Done(c, source),
{
}

/// A login saves what an import finds. Only where the desktop app's key has
/// moved away does it exchange the refresh token that was left; any other
/// failure of the import is its own.
pub proof fn law_login_saves_the_import(
    platform: Platform,
    files: Option<FilesView>,
    key: KeyView,
    c: CredentialsView,
    e: ErrorView,
)
    ensures
        desktop::imported(platform, files, key) == Ok::<CredentialsView, ErrorView>(c)
            ==> login_step(platform, files, key) == StepView::Save(
            c,
            CredentialSource::DesktopImport,
        ),
        desktop::imported(platform, files, key) == Err::<CredentialsView, ErrorView>(e) && e
            != ErrorView::DesktopKeyMigrated ==> login_step(platform, files, key)
            == StepView::Failed(e),
        desktop::imported(platform, files, key) == Err::<CredentialsView, ErrorView>(
            ErrorView::DesktopKeyMigrated,
        ) && desktop::legacy_credentials(files) == Ok::<CredentialsView, ErrorView>(c)
            ==> login_step(platform, files, key) == StepView::Exchange(
            c,
            CredentialSource::Bootstrap,
        ),
        desktop::imported(platform, files, key) == Err::<CredentialsView, ErrorView>(
            ErrorView::DesktopKeyMigrated,
        ) && desktop::legacy_credentials(files) == Err::<CredentialsView, ErrorView>(e)
            ==> login_step(platform, files, key) == StepView::Failed(e),
{
}

/// The request sends the refresh token of the session, and to WorkOS its client
/// too; on macOS it goes to the desktop app's own service, under its name.
pub proof fn law_request_sends_the_refresh_token(platform: Platform, c: CredentialsView)
    ensures
        renewal(platform, c).body.text("refresh_token"@) == Some(c.refresh_token),
        platform == Platform::MacOs ==> {
            let r = renewal(platform, c);
            &&& r.url == "https://api.granola.ai/v1/refresh-access-token"@
            &&& r.body->Object_0.len() == 1
            &&& r.headers.contains(("User-Agent"@, "Granola/"@ + GRANOLA_CLIENT_VERSION@))
            &&& r.headers.contains(("X-Client-Version"@, GRANOLA_CLIENT_VERSION@))
            &&& r.headers.contains(("X-Granola-Platform"@, "darwin"@))
            &&& r.headers.contains(("Accept"@, "*/*"@))
        },
        platform != Platform::MacOs ==> {
            let r = renewal(platform, c);
            &&& r.url == "https://api.workos.com/user_management/authenticate"@
            &&& r.headers.len() == 0
            &&& r.body.text("client_id"@) == Some(c.client_id)
            &&& r.body.text("grant_type"@) == Some("refresh_token"@)
        },
{
    let r = renewal(platform, c);
    let fields = r.body->Object_0;
    reveal_strlit("refresh_token");
    reveal_strlit("client_id");
    reveal_strlit("grant_type");
    assert("client_id"@.len() != "refresh_token"@.len());
    assert("grant_type"@.len() != "refresh_token"@.len());
    assert("grant_type"@.len() != "client_id"@.len());
    if platform == Platform::MacOs {
        assert(fields[0].0 == "refresh_token"@);
        assert(r.headers[0] == ("Accept"@, "*/*"@));
        assert(r.headers[1] == ("User-Agent"@, "Granola/"@ + GRANOLA_CLIENT_VERSION@));
        assert(r.headers[2] == ("X-Client-Version"@, GRANOLA_CLIENT_VERSION@));
        assert(r.headers[3] == ("X-Granola-Platform"@, "darwin"@));
    } else {
        json::law_first_field_counts(fields, "client_id"@, 0);
        json::law_first_field_counts(fields, "grant_type"@, 1);
        json::law_first_field_counts(fields, "refresh_token"@, 2);
    }
}

/// What comes of a way to credentials is seen as it is.
pub proof fn law_results_are_seen(
    r: Result<Credentials, Error>,
    o: Result<Option<Credentials>, Error>,
    c: Credentials,
)
    ensures
        r matches Ok(x) ==> desktop::credentials_result(r) == Ok::<CredentialsView, ErrorView>(x@),
        r matches Err(e) ==> desktop::credentials_result(r) == Err::<CredentialsView, ErrorView>(
            e@,
        ),
        o matches Ok(x) ==> stored_result(o) == Ok::<Option<CredentialsView>, ErrorView>(
            json::seen(x),
        ),
        o matches Err(e) ==> stored_result(o) == Err::<Option<CredentialsView>, ErrorView>(e@),
        c@.refresh_token == c.refresh_token@,
        c@.access_token == c.access_token@,
        c@.client_id == c.client_id@,
{
}

/// The tokens of an answer are seen as they came.
pub proof fn law_answers_are_seen(w: WorkOsRefreshResponse, g: GranolaRefreshResponse)
    ensures
        RefreshReply::WorkOs(w)@ == ReplyView::WorkOs(w.access_token@, w.refresh_token@),
        RefreshReply::Granola(g)@ == ReplyView::Granola(
            g.access_token@,
            json::seen(g.refresh_token),
        ),
{
}

/// Credentials in the keychain stand under their keys.
pub proof fn law_kept_credentials_have_keys(c: CredentialsView)
    ensures
        credentials_json(c).text("refreshToken"@) == Some(c.refresh_token),
        credentials_json(c).text("accessToken"@) == Some(c.access_token),
        credentials_json(c).text("clientId"@) == Some(c.client_id),
{
    let fields = credentials_json(c)->Object_0;
    reveal_strlit("refreshToken");
    reveal_strlit("accessToken");
    reveal_strlit("clientId");
    assert("refreshToken"@.len() != "accessToken"@.len());
    assert("refreshToken"@.len() != "clientId"@.len());
    assert("accessToken"@.len() != "clientId"@.len());
    json::law_first_field_counts(fields, "refreshToken"@, 0);
    json::law_first_field_counts(fields, "accessToken"@, 1);
    json::law_first_field_counts(fields, "clientId"@, 2);
}

/// Credentials are read from the keychain where the refresh token and the client
/// are there, as texts and once; a missing access token is empty.
pub proof fn law_kept_credentials_are_read(v: JsonView, r: Seq<char>, c: Seq<char>)
    requires
        v is Object,
        auth::is_record(v, kept_keys()),
    ensures
        v.text("refreshToken"@) == Some(r) && v.text("clientId"@) == Some(c) && v.get(
            "accessToken"@,
        ) is None ==> kept_credentials(v) == Some(
            CredentialsView { refresh_token: r, access_token: ""@, client_id: c },
        ),
        v.text("refreshToken"@) == Some(r) && v.text("clientId"@) == Some(c) ==> (v.text(
            "accessToken"@,
        ) matches Some(a) ==> kept_credentials(v) == Some(
            CredentialsView { refresh_token: r, access_token: a, client_id: c },
        )),
        v.text("refreshToken"@) is None || v.text("clientId"@) is None ==> kept_credentials(v)
            is None,
{
}

/// Where credentials came from has a name, and so has each of their fields in
/// the keychain.
pub proof fn law_sources_have_names()
    ensures
        source_name(CredentialSource::Keychain) == "keychain"@,
        source_name(CredentialSource::DesktopImport) == "desktop_import"@,
        source_name(CredentialSource::Bootstrap) == "bootstrap"@,
        kept_keys() == seq!["refreshToken"@, "accessToken"@, "clientId"@],
{
}

/// Credentials that stand in the keychain as an array are its refresh token, its
/// access token and its client, all three of them texts.
pub proof fn law_kept_arrays_are_read(r: JsonView, a: JsonView, c: JsonView)
    ensures
        (r matches JsonView::Text(x) && a matches JsonView::Text(y) && c matches JsonView::Text(z)
            && kept_credentials(JsonView::Array(seq![r, a, c])) == Some(
            CredentialsView { refresh_token: x, access_token: y, client_id: z },
        )) || (!(r is Text && a is Text && c is Text) && kept_credentials(
            JsonView::Array(seq![r, a, c]),
        ) is None),
        kept_credentials(JsonView::Array(seq![r, a])) is None,
{
}

} // verus!
