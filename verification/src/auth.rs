//! Credentials: what the desktop app left on disk, and how a session is kept
//! alive.

use crate::frames;
use crate::frames::{read_record, read_records};
use crate::json;
use crate::json::{count_fields, opt_str, str_of, Json, JsonView};
use crate::text;
use crate::text::{join, prefixed, quote, to_decimal};
use vstd::prelude::*;

verus! {

/// The client id of credentials that name none.
pub const DEFAULT_CLIENT_ID: &'static str = "client_GranolaMac";

/// The version that the client goes by.
pub const GRANOLA_CLIENT_VERSION: &'static str = "7.427.3";

// ---- Errors -----------------------------------------------------------------

/// An error of an outside library: what it says, and what the errors behind it
/// say, the nearest first.
#[derive(Debug, PartialEq, Eq)]
pub struct Cause {
    pub text: String,
    pub behind: Vec<String>,
}

/// What a [`Cause`] says.
pub struct CauseView {
    pub text: Seq<char>,
    pub behind: Seq<Seq<char>>,
}

impl View for Cause {
    type V = CauseView;

    open spec fn view(&self) -> CauseView {
        CauseView { text: self.text@, behind: text::text_views(self.behind@) }
    }
}

/// What is said of a cause with all that lies behind it.
pub open spec fn cause_chain(c: CauseView) -> Seq<char> {
    text::joined(seq![c.text] + c.behind, ": "@)
}

impl Cause {
    /// A cause with nothing behind it.
    pub fn new(text: String) -> (r: Cause)
        ensures
            r@.text == text@,
            r@.behind == Seq::<Seq<char>>::empty(),
    {
        let r = Cause { text, behind: Vec::new() };
        assert(text::text_views(r.behind@) =~= Seq::empty());
        r
    }

    /// What the cause says, and what lies behind it.
    pub fn chain(&self) -> (r: String)
        ensures
            r@ == cause_chain(self@),
    {
        let mut parts: Vec<String> = Vec::new();
        parts.push(self.text.clone());
        let mut i: usize = 0;
        while i < self.behind.len()
            invariant
                i <= self.behind.len(),
                parts.len() == i + 1,
                parts@[0]@ == self.text@,
                forall|k: int| 0 <= k < i ==> (#[trigger] parts@[k + 1])@ == self.behind@[k]@,
            decreases self.behind.len() - i,
        {
            parts.push(self.behind[i].clone());
            i += 1;
        }
        proof {
            let all = text::text_views(parts@);
            let want = seq![self.text@] + text::text_views(self.behind@);
            assert forall|k: int| 0 <= k < all.len() implies all[k] == want[k] by {
                if k > 0 {
                    assert(parts@[(k - 1) + 1]@ == self.behind@[k - 1]@);
                }
            }
            assert(all =~= want);
        }
        join(&parts, ": ")
    }
}

/// Why there are no credentials. The text says what happened, and not how to
/// mend it: that is for whoever shows it.
#[derive(Debug, PartialEq, Eq)]
pub enum Error {
    Keyring(Cause),
    Io(Cause),
    Json(Cause),
    Http(Cause),
    NoCredentials,
    RefreshRejected { status: u16 },
    NoDesktopCredentials { tried: Vec<String> },
    DesktopKeyMigrated,
    EncryptedDesktopCredentials(String),
    NoHomeDir,
}

/// What an [`Error`] says.
pub enum ErrorView {
    Keyring(CauseView),
    Io(CauseView),
    Json(CauseView),
    Http(CauseView),
    NoCredentials,
    RefreshRejected { status: u16 },
    NoDesktopCredentials { tried: Seq<Seq<char>> },
    DesktopKeyMigrated,
    EncryptedDesktopCredentials(Seq<char>),
    NoHomeDir,
}

impl View for Error {
    type V = ErrorView;

    open spec fn view(&self) -> ErrorView {
        match self {
            Error::Keyring(s) => ErrorView::Keyring(s@),
            Error::Io(s) => ErrorView::Io(s@),
            Error::Json(s) => ErrorView::Json(s@),
            Error::Http(s) => ErrorView::Http(s@),
            Error::NoCredentials => ErrorView::NoCredentials,
            Error::RefreshRejected { status } => ErrorView::RefreshRejected { status: *status },
            Error::NoDesktopCredentials { tried } => ErrorView::NoDesktopCredentials {
                tried: text::text_views(tried@),
            },
            Error::DesktopKeyMigrated => ErrorView::DesktopKeyMigrated,
            Error::EncryptedDesktopCredentials(s) => ErrorView::EncryptedDesktopCredentials(s@),
            Error::NoHomeDir => ErrorView::NoHomeDir,
        }
    }
}

/// Texts between quotes.
pub open spec fn all_quoted(s: Seq<Seq<char>>) -> Seq<Seq<char>> {
    Seq::new(s.len(), |i: int| text::quoted(s[i]))
}

/// What is said of an error.
pub open spec fn error_message(e: ErrorView) -> Seq<char> {
    match e {
        ErrorView::Keyring(c) => "keychain: "@ + c.text,
        ErrorView::Io(c) => "io: "@ + c.text,
        ErrorView::Json(c) => "json: "@ + c.text,
        ErrorView::Http(c) => "network: "@ + c.text,
        ErrorView::NoCredentials => "no usable credentials in the OS keychain"@,
        ErrorView::RefreshRejected { status } =>
            "refresh token rejected by authentication provider (HTTP "@ + text::decimal(
            status as nat,
        ) + ")"@,
        ErrorView::NoDesktopCredentials { tried } =>
            "could not locate Granola desktop credentials — tried ["@ + text::joined(
            all_quoted(tried),
            ", "@,
        ) + "]"@,
        ErrorView::DesktopKeyMigrated =>
            "Granola moved its desktop encryption key into an app-only Keychain access group"@,
        ErrorView::EncryptedDesktopCredentials(s) =>
            "could not read encrypted Granola desktop credentials: "@ + s,
        ErrorView::NoHomeDir => "could not determine user home/cache directory"@,
    }
}

/// What is said of an error with each cause behind it.
pub open spec fn error_chain(e: ErrorView) -> Seq<char> {
    match e {
        ErrorView::Keyring(c) => error_message(e) + ": "@ + cause_chain(c),
        ErrorView::Io(c) => error_message(e) + ": "@ + cause_chain(c),
        ErrorView::Json(c) => error_message(e) + ": "@ + cause_chain(c),
        ErrorView::Http(c) => error_message(e) + ": "@ + cause_chain(c),
        _ => error_message(e),
    }
}

impl Error {
    /// What went wrong, and each cause behind it.
    pub fn chain(&self) -> (r: String)
        ensures
            r@ == error_chain(self@),
    {
        let mut out = self.message();
        match self {
            Error::Keyring(c) | Error::Io(c) | Error::Json(c) | Error::Http(c) => {
                out.append(": ");
                out.append(c.chain().as_str());
            },
            _ => {},
        }
        out
    }

    /// What went wrong, for a reader.
    pub fn message(&self) -> (r: String)
        ensures
            r@ == error_message(self@),
    {
        match self {
            Error::Keyring(c) => prefixed("keychain: ", c.text.as_str()),
            Error::Io(c) => prefixed("io: ", c.text.as_str()),
            Error::Json(c) => prefixed("json: ", c.text.as_str()),
            Error::Http(c) => prefixed("network: ", c.text.as_str()),
            Error::NoCredentials => "no usable credentials in the OS keychain".to_owned(),
            Error::RefreshRejected { status } => {
                let mut out = prefixed(
                    "refresh token rejected by authentication provider (HTTP ",
                    to_decimal(*status as u64).as_str(),
                );
                out.append(")");
                out
            },
            Error::NoDesktopCredentials { tried } => {
                let mut parts: Vec<String> = Vec::new();
                let mut i: usize = 0;
                while i < tried.len()
                    invariant
                        i <= tried.len(),
                        parts.len() == i,
                        forall|k: int|
                            0 <= k < i ==> (#[trigger] parts@[k])@ == text::quoted(tried@[k]@),
                    decreases tried.len() - i,
                {
                    parts.push(quote(tried[i].as_str()));
                    i += 1;
                }
                assert(text::text_views(parts@) =~= all_quoted(text::text_views(tried@)));
                let mut out = prefixed(
                    "could not locate Granola desktop credentials — tried [",
                    join(&parts, ", ").as_str(),
                );
                out.append("]");
                out
            },
            Error::DesktopKeyMigrated =>
                "Granola moved its desktop encryption key into an app-only Keychain access group".to_owned(),
            Error::EncryptedDesktopCredentials(s) => prefixed(
                "could not read encrypted Granola desktop credentials: ",
                s.as_str(),
            ),
            Error::NoHomeDir => "could not determine user home/cache directory".to_owned(),
        }
    }
}

// ---- Credentials ------------------------------------------------------------

/// A session: the token that opens it, and the one that renews it.
#[derive(Debug, PartialEq, Eq)]
pub struct Credentials {
    pub refresh_token: String,
    pub access_token: String,
    pub client_id: String,
}

/// What [`Credentials`] say.
pub struct CredentialsView {
    pub refresh_token: Seq<char>,
    pub access_token: Seq<char>,
    pub client_id: Seq<char>,
}

impl View for Credentials {
    type V = CredentialsView;

    open spec fn view(&self) -> CredentialsView {
        CredentialsView {
            refresh_token: self.refresh_token@,
            access_token: self.access_token@,
            client_id: self.client_id@,
        }
    }
}

impl Clone for Credentials {
    fn clone(&self) -> (r: Self)
        ensures
            r@ == self@,
    {
        Credentials {
            refresh_token: self.refresh_token.clone(),
            access_token: self.access_token.clone(),
            client_id: self.client_id.clone(),
        }
    }
}

/// An optional text, or a default.
pub open spec fn text_else(o: Option<Seq<char>>, default: Seq<char>) -> Seq<char> {
    match o {
        Some(s) => s,
        None => default,
    }
}

/// An optional text, or a default.
fn text_or_else(o: Option<&str>, default: &str) -> (r: String)
    ensures
        r@ == text_else(json::seen(o), default@),
{
    match o {
        Some(s) => s.to_owned(),
        None => default.to_owned(),
    }
}

// ---- Records ----------------------------------------------------------------

/// Whether a document is a record of some fields: an object that has none of
/// them twice, or an array of their values in order.
pub open spec fn is_record(v: JsonView, keys: Seq<Seq<char>>) -> bool {
    match v {
        JsonView::Object(fields) => forall|i: int|
            0 <= i < keys.len() ==> json::times(fields, #[trigger] keys[i]) <= 1,
        JsonView::Array(items) => items.len() == keys.len(),
        _ => false,
    }
}

/// A field of a record: under its key, or at its place. One that is null is
/// not there.
pub open spec fn member(v: JsonView, key: Seq<char>, i: int) -> Option<JsonView> {
    let found = match v {
        JsonView::Object(fields) => json::lookup(fields, key),
        JsonView::Array(items) => if 0 <= i < items.len() {
            Some(items[i])
        } else {
            None
        },
        _ => None,
    };
    match found {
        Some(JsonView::Null) => None,
        other => other,
    }
}

/// Whether an optional field can hold what a record has there: a text, or
/// nothing.
pub open spec fn text_fits(o: Option<JsonView>) -> bool {
    o matches Some(v) ==> v is Text
}

/// Whether a document is a record of some fields.
pub fn has_fields(v: &Json, keys: &Vec<&'static str>) -> (r: bool)
    ensures
        r == is_record(v@, text::literal_views(keys@)),
{
    match v {
        Json::Object(fields) => {
            let ghost names = text::literal_views(keys@);
            let ghost all = json::field_views(fields@);
            proof {
                json::lemma_object_view(*fields);
            }
            let mut i: usize = 0;
            while i < keys.len()
                invariant
                    i <= keys.len(),
                    names == text::literal_views(keys@),
                    all == json::field_views(fields@),
                    v@ == JsonView::Object(all),
                    forall|k: int| 0 <= k < i ==> json::times(all, #[trigger] names[k]) <= 1,
                decreases keys.len() - i,
            {
                assert(names[i as int] == keys@[i as int]@);
                if count_fields(fields, keys[i]) > 1 {
                    assert(json::times(all, names[i as int]) > 1);
                    return false;
                }
                i += 1;
            }
            true
        },
        Json::Array(items) => {
            proof {
                json::lemma_array_view(*items);
            }
            items.len() == keys.len()
        },
        _ => false,
    }
}

/// A field of a record.
fn field<'a>(v: &'a Json, key: &str, i: usize) -> (r: Option<&'a Json>)
    ensures
        json::seen(r) == member(v@, key@, i as int),
{
    let found = match v {
        Json::Object(_) => v.get(key),
        Json::Array(items) => {
            proof {
                json::lemma_array_view(*items);
                assert(json::views(items@).len() == items@.len());
            }
            if i < items.len() {
                assert(json::views(items@)[i as int] == items@[i as int]@);
                Some(&items[i])
            } else {
                None
            }
        },
        _ => None,
    };
    match found {
        Some(Json::Null) => None,
        other => other,
    }
}

/// Whether an optional field is a text, or nothing.
fn fits_text(o: Option<&Json>) -> (r: bool)
    ensures
        r == text_fits(json::seen(o)),
{
    match o {
        Some(Json::Text(_)) => true,
        Some(_) => false,
        None => true,
    }
}

// ---- Tokens -----------------------------------------------------------------

/// The tokens that a file holds.
#[derive(Debug, PartialEq, Eq)]
pub struct TokenBlob {
    pub access_token: Option<String>,
    pub refresh_token: Option<String>,
    pub client_id: Option<String>,
}

/// What a [`TokenBlob`] says.
pub struct TokensView {
    pub access_token: Option<Seq<char>>,
    pub refresh_token: Option<Seq<char>>,
    pub client_id: Option<Seq<char>>,
}

impl View for TokenBlob {
    type V = TokensView;

    open spec fn view(&self) -> TokensView {
        TokensView {
            access_token: json::seen(self.access_token),
            refresh_token: json::seen(self.refresh_token),
            client_id: json::seen(self.client_id),
        }
    }
}

/// The fields of a record of tokens.
pub open spec fn token_keys() -> Seq<Seq<char>> {
    seq!["access_token"@, "refresh_token"@, "client_id"@]
}

/// The fields of a record of tokens.
fn name_token_keys() -> (r: Vec<&'static str>)
    ensures
        text::literal_views(r@) == token_keys(),
{
    let r: Vec<&'static str> = vec!["access_token", "refresh_token", "client_id"];
    assert(text::literal_views(r@) =~= token_keys());
    r
}

/// The tokens in a record of three optional texts.
pub open spec fn tokens_in(v: JsonView) -> Option<TokensView> {
    let access_token = member(v, "access_token"@, 0);
    let refresh_token = member(v, "refresh_token"@, 1);
    let client_id = member(v, "client_id"@, 2);
    if is_record(v, token_keys()) && text_fits(access_token) && text_fits(refresh_token)
        && text_fits(client_id) {
        Some(
            TokensView {
                access_token: json::text_in(access_token),
                refresh_token: json::text_in(refresh_token),
                client_id: json::text_in(client_id),
            },
        )
    } else {
        None
    }
}

/// The tokens in the text of a record.
pub open spec fn tokens_written(s: Seq<char>) -> Option<TokensView> {
    match frames::record_in(s, token_keys()) {
        Some(v) => tokens_in(v),
        None => None,
    }
}

/// The tokens of an optional field: a record, or a text that holds one.
pub open spec fn tokens_held(o: Option<JsonView>) -> Option<TokensView> {
    match o {
        Some(JsonView::Text(s)) => tokens_written(s),
        Some(v) => tokens_in(v),
        None => None,
    }
}

/// Whether an optional field can hold tokens: a text, a record of tokens, or
/// nothing.
pub open spec fn tokens_fit(o: Option<JsonView>) -> bool {
    o matches Some(v) ==> (v is Text || tokens_in(v) is Some)
}

/// An owned copy of an optional text.
fn owned(o: Option<&str>) -> (r: Option<String>)
    ensures
        json::seen(r) == json::seen(o),
{
    match o {
        Some(s) => Some(s.to_owned()),
        None => None,
    }
}

/// The tokens in a record of three optional texts.
fn read_tokens(v: &Json) -> (r: Option<TokenBlob>)
    ensures
        json::seen(r) == tokens_in(v@),
{
    let access_token = field(v, "access_token", 0);
    let refresh_token = field(v, "refresh_token", 1);
    let client_id = field(v, "client_id", 2);
    if has_fields(v, &name_token_keys()) && fits_text(access_token) && fits_text(refresh_token)
        && fits_text(client_id) {
        Some(
            TokenBlob {
                access_token: owned(opt_str(access_token)),
                refresh_token: owned(opt_str(refresh_token)),
                client_id: owned(opt_str(client_id)),
            },
        )
    } else {
        None
    }
}

/// The tokens of an optional field, and whether the field can hold tokens.
fn read_slot(o: Option<&Json>) -> (r: (bool, Option<TokenBlob>))
    ensures
        r.0 == tokens_fit(json::seen(o)),
        json::seen(r.1) == tokens_held(json::seen(o)),
{
    match o {
        None => (true, None),
        Some(v) => match v.as_str() {
            Some(s) => match read_record(s, &name_token_keys()) {
                Some(w) => (true, read_tokens(&w)),
                None => (true, None),
            },
            None => {
                let found = read_tokens(v);
                (found.is_some(), found)
            },
        },
    }
}

// ---- Stored accounts --------------------------------------------------------

/// The fields of an account.
pub open spec fn account_keys() -> Seq<Seq<char>> {
    seq!["tokens"@]
}

/// The fields of a file of stored accounts.
pub open spec fn accounts_keys() -> Seq<Seq<char>> {
    seq!["accounts"@]
}

/// The one field of a record.
fn name_key(key: &'static str) -> (r: Vec<&'static str>)
    ensures
        text::literal_views(r@) == seq![key@],
{
    let r: Vec<&'static str> = vec![key];
    assert(text::literal_views(r@) =~= seq![key@]);
    r
}

/// Whether a document is an account: a record whose tokens fit.
pub open spec fn is_account(v: JsonView) -> bool {
    is_record(v, account_keys()) && tokens_fit(member(v, "tokens"@, 0))
}

/// The credentials of tokens that must open a session.
pub open spec fn opened_by(t: TokensView) -> Option<CredentialsView> {
    match t.access_token {
        Some(access_token) => Some(
            CredentialsView {
                refresh_token: text_else(t.refresh_token, ""@),
                access_token,
                client_id: text_else(t.client_id, DEFAULT_CLIENT_ID@),
            },
        ),
        None => None,
    }
}

/// The credentials of tokens that must renew a session.
pub open spec fn renewed_by(t: TokensView) -> Option<CredentialsView> {
    match t.refresh_token {
        Some(refresh_token) => Some(
            CredentialsView {
                refresh_token,
                access_token: text_else(t.access_token, ""@),
                client_id: text_else(t.client_id, DEFAULT_CLIENT_ID@),
            },
        ),
        None => None,
    }
}

/// The credentials of the first of some accounts, all of which must be
/// accounts.
pub open spec fn first_account(v: JsonView) -> Option<CredentialsView> {
    match v {
        JsonView::Array(items) => if items.len() > 0 && (forall|i: int|
            0 <= i < items.len() ==> is_account(#[trigger] items[i])) {
            match tokens_held(member(items[0], "tokens"@, 0)) {
                Some(t) => opened_by(t),
                None => None,
            }
        } else {
            None
        },
        _ => None,
    }
}

/// The credentials in a file of stored accounts. The accounts, and the tokens
/// of each, stand there as they are or as text.
pub open spec fn stored_credentials(v: JsonView) -> Option<CredentialsView> {
    if is_record(v, accounts_keys()) {
        match member(v, "accounts"@, 0) {
            Some(JsonView::Text(s)) => match frames::records_in(s, account_keys()) {
                Some(w) => first_account(w),
                None => None,
            },
            Some(w) => first_account(w),
            None => None,
        }
    } else {
        None
    }
}

/// The credentials in the text of a file of stored accounts.
pub open spec fn stored_credentials_in(s: Seq<char>) -> Option<CredentialsView> {
    match frames::record_in(s, accounts_keys()) {
        Some(v) => stored_credentials(v),
        None => None,
    }
}

/// The credentials of tokens that must open a session.
fn open_with(t: &TokenBlob) -> (r: Option<Credentials>)
    ensures
        json::seen(r) == opened_by(t@),
{
    match &t.access_token {
        Some(access_token) => Some(
            Credentials {
                refresh_token: text_or_else(str_of(&t.refresh_token), ""),
                access_token: access_token.clone(),
                client_id: text_or_else(str_of(&t.client_id), DEFAULT_CLIENT_ID),
            },
        ),
        None => None,
    }
}

/// The credentials of tokens that must renew a session.
fn renew_with(t: &TokenBlob) -> (r: Option<Credentials>)
    ensures
        json::seen(r) == renewed_by(t@),
{
    match &t.refresh_token {
        Some(refresh_token) => Some(
            Credentials {
                refresh_token: refresh_token.clone(),
                access_token: text_or_else(str_of(&t.access_token), ""),
                client_id: text_or_else(str_of(&t.client_id), DEFAULT_CLIENT_ID),
            },
        ),
        None => None,
    }
}

/// The credentials of the first of some accounts.
fn read_accounts(v: &Json) -> (r: Option<Credentials>)
    ensures
        json::seen(r) == first_account(v@),
{
    match v.as_array() {
        Some(items) => {
            let ghost all = json::views(items@);
            if items.len() == 0 {
                return None;
            }
            let mut i: usize = 0;
            while i < items.len()
                invariant
                    i <= items.len(),
                    all == json::views(items@),
                    v@ == JsonView::Array(all),
                    forall|k: int| 0 <= k < i ==> is_account(#[trigger] all[k]),
                decreases items.len() - i,
            {
                let item = &items[i];
                assert(all[i as int] == item@);
                if !has_fields(item, &name_key("tokens")) || !read_slot(field(item, "tokens", 0)).0 {
                    assert(!is_account(all[i as int]));
                    return None;
                }
                i += 1;
            }
            assert(all[0] == items@[0]@);
            match read_slot(field(&items[0], "tokens", 0)).1 {
                Some(t) => open_with(&t),
                None => None,
            }
        },
        None => None,
    }
}

/// The credentials in a file of stored accounts.
pub fn read_stored_accounts(v: &Json) -> (r: Option<Credentials>)
    ensures
        json::seen(r) == stored_credentials(v@),
{
    if has_fields(v, &name_key("accounts")) {
        match field(v, "accounts", 0) {
            Some(w) => match w.as_str() {
                Some(s) => match read_records(s, &name_key("tokens")) {
                    Some(x) => read_accounts(&x),
                    None => None,
                },
                None => read_accounts(w),
            },
            None => None,
        }
    } else {
        None
    }
}

/// The credentials in the text of a file of stored accounts. A field that the
/// file does not need is passed over, whatever it holds; one that it needs and
/// has twice is refused.
pub fn parse_stored_accounts(text: &str) -> (r: Option<Credentials>)
    ensures
        json::seen(r) == stored_credentials_in(text@),
{
    match read_record(text, &name_key("accounts")) {
        Some(v) => read_stored_accounts(&v),
        None => None,
    }
}

// ---- Supabase ---------------------------------------------------------------

/// The fields of a Supabase file.
pub open spec fn supabase_keys() -> Seq<Seq<char>> {
    seq!["workos_tokens"@, "cognito_tokens"@, "refresh_token"@, "access_token"@, "client_id"@]
}

/// The fields of a Supabase file.
fn name_supabase_keys() -> (r: Vec<&'static str>)
    ensures
        text::literal_views(r@) == supabase_keys(),
{
    let r: Vec<&'static str> = vec![
        "workos_tokens",
        "cognito_tokens",
        "refresh_token",
        "access_token",
        "client_id",
    ];
    assert(text::literal_views(r@) =~= supabase_keys());
    r
}

/// The credentials in a Supabase file: of the WorkOS tokens, if they open a
/// session; else of the Cognito tokens, if there are any; else of the tokens of
/// the file itself. The last two must renew a session.
pub open spec fn supabase_credentials(v: JsonView) -> Option<CredentialsView> {
    let workos = member(v, "workos_tokens"@, 0);
    let cognito = member(v, "cognito_tokens"@, 1);
    let refresh_token = member(v, "refresh_token"@, 2);
    let access_token = member(v, "access_token"@, 3);
    let client_id = member(v, "client_id"@, 4);
    if is_record(v, supabase_keys()) && tokens_fit(workos) && tokens_fit(cognito) && text_fits(
        refresh_token,
    ) && text_fits(access_token) && text_fits(client_id) {
        let opened = match tokens_held(workos) {
            Some(t) => opened_by(t),
            None => None,
        };
        if opened is Some {
            opened
        } else {
            match tokens_held(cognito) {
                Some(t) => renewed_by(t),
                None => renewed_by(
                    TokensView {
                        access_token: json::text_in(access_token),
                        refresh_token: json::text_in(refresh_token),
                        client_id: json::text_in(client_id),
                    },
                ),
            }
        }
    } else {
        None
    }
}

/// The credentials in the text of a Supabase file.
pub open spec fn supabase_credentials_in(s: Seq<char>) -> Option<CredentialsView> {
    match frames::record_in(s, supabase_keys()) {
        Some(v) => supabase_credentials(v),
        None => None,
    }
}

/// The credentials in a Supabase file.
pub fn read_supabase(v: &Json) -> (r: Option<Credentials>)
    ensures
        json::seen(r) == supabase_credentials(v@),
{
    let workos = read_slot(field(v, "workos_tokens", 0));
    let cognito = read_slot(field(v, "cognito_tokens", 1));
    let refresh_token = field(v, "refresh_token", 2);
    let access_token = field(v, "access_token", 3);
    let client_id = field(v, "client_id", 4);
    if !(has_fields(v, &name_supabase_keys()) && workos.0 && cognito.0 && fits_text(refresh_token)
        && fits_text(access_token) && fits_text(client_id)) {
        return None;
    }
    if let Some(t) = workos.1 {
        if let Some(c) = open_with(&t) {
            return Some(c);
        }
    }
    match cognito.1 {
        Some(t) => renew_with(&t),
        None => renew_with(
            &TokenBlob {
                access_token: owned(opt_str(access_token)),
                refresh_token: owned(opt_str(refresh_token)),
                client_id: owned(opt_str(client_id)),
            },
        ),
    }
}

/// The credentials in the text of a Supabase file. A field that the file does
/// not need is passed over, whatever it holds; one that it needs and has twice
/// is refused.
pub fn parse_supabase(text: &str) -> (r: Option<Credentials>)
    ensures
        json::seen(r) == supabase_credentials_in(text@),
{
    match read_record(text, &name_supabase_keys()) {
        Some(v) => read_supabase(&v),
        None => None,
    }
}

// ---- What holds of files ----------------------------------------------------

/// Accounts that stand in a file as text give the credentials that they give as
/// they are.
pub proof fn law_encoded_accounts_read_alike(
    encoded: JsonView,
    plain: JsonView,
    s: Seq<char>,
    accounts: JsonView,
)
    requires
        is_record(encoded, accounts_keys()),
        is_record(plain, accounts_keys()),
        member(encoded, "accounts"@, 0) == Some(JsonView::Text(s)),
        member(plain, "accounts"@, 0) == Some(accounts),
        frames::records_in(s, account_keys()) == Some(accounts),
    ensures
        stored_credentials(encoded) == stored_credentials(plain),
{
}

/// Tokens that stand in a file as text are those that they are as a record.
pub proof fn law_encoded_tokens_read_alike(s: Seq<char>, tokens: JsonView)
    requires
        frames::record_in(s, token_keys()) == Some(tokens),
    ensures
        tokens_held(Some(JsonView::Text(s))) == tokens_held(Some(tokens)),
        tokens_fit(Some(JsonView::Text(s))),
{
}

/// The first account decides: with the accounts behind it exchanged for others,
/// a file gives the same credentials.
pub proof fn law_first_account_decides(a: Seq<JsonView>, b: Seq<JsonView>)
    requires
        a.len() > 0,
        b.len() > 0,
        a[0] == b[0],
        forall|i: int| 0 <= i < a.len() ==> is_account(#[trigger] a[i]),
        forall|i: int| 0 <= i < b.len() ==> is_account(#[trigger] b[i]),
    ensures
        first_account(JsonView::Array(a)) == first_account(JsonView::Array(b)),
{
}

/// A file that has a field twice which it needs gives no credentials.
pub proof fn law_repeated_fields_are_refused(fields: Seq<(Seq<char>, JsonView)>)
    ensures
        json::times(fields, "accounts"@) > 1 ==> stored_credentials(JsonView::Object(fields))
            is None,
        forall|i: int|
            0 <= i < supabase_keys().len() && json::times(fields, #[trigger] supabase_keys()[i]) > 1
                ==> supabase_credentials(JsonView::Object(fields)) is None,
{
    assert(accounts_keys()[0] == "accounts"@);
}

/// The tokens of the first account are the credentials: its access token, which
/// must be there, its refresh token or an empty one, and its client or the
/// desktop app's.
pub proof fn law_first_tokens_are_the_credentials(
    file: JsonView,
    accounts: Seq<JsonView>,
    tokens: JsonView,
)
    requires
        file is Object,
        is_record(file, accounts_keys()),
        file.get("accounts"@) == Some(JsonView::Array(accounts)),
        accounts.len() > 0,
        forall|i: int| 0 <= i < accounts.len() ==> is_account(#[trigger] accounts[i]),
        accounts[0] is Object,
        accounts[0].get("tokens"@) == Some(tokens),
        tokens is Object,
    ensures
        tokens.text("access_token"@) is None ==> stored_credentials(file) is None,
        tokens.text("access_token"@) matches Some(a) ==> (stored_credentials(file) matches Some(c)
            && c.access_token == a && c.refresh_token == tokens.text_or("refresh_token"@, ""@)
            && c.client_id == tokens.text_or("client_id"@, "client_GranolaMac"@)),
{
    assert(is_account(accounts[0]));
}

/// Without accounts there are no credentials, and neither where one of them is
/// none.
pub proof fn law_no_account_gives_no_credentials(file: JsonView, accounts: Seq<JsonView>, i: int)
    ensures
        file is Object && file.get("accounts"@) is None ==> stored_credentials(file) is None,
        file is Object && file.get("accounts"@) == Some(JsonView::Array(Seq::empty()))
            ==> stored_credentials(file) is None,
        file is Object && file.get("accounts"@) == Some(JsonView::Array(accounts)) && 0 <= i
            < accounts.len() && !(accounts[i] is Object) && !(accounts[i] is Array)
            ==> stored_credentials(file) is None,
{
    if 0 <= i < accounts.len() && !(accounts[i] is Object) && !(accounts[i] is Array) {
        assert(!is_account(accounts[i]));
    }
}

/// Of a Supabase file the WorkOS tokens count if they have an access token; else
/// the Cognito tokens, if there are any, which must have a refresh token; else
/// the tokens of the file itself, which must have one too. What may be missing
/// is empty, or the desktop app's client.
pub proof fn law_workos_then_cognito_then_the_file(
    file: JsonView,
    workos: Option<JsonView>,
    cognito: Option<JsonView>,
)
    requires
        file is Object,
        is_record(file, supabase_keys()),
        file.get("workos_tokens"@) == workos,
        file.get("cognito_tokens"@) == cognito,
        workos matches Some(w) ==> w is Object && tokens_in(w) is Some,
        cognito matches Some(g) ==> g is Object && tokens_in(g) is Some,
        text_fits(member(file, "refresh_token"@, 2)),
        text_fits(member(file, "access_token"@, 3)),
        text_fits(member(file, "client_id"@, 4)),
    ensures
        ({
            let r = supabase_credentials(file);
            let opens = workos matches Some(w) && w.text("access_token"@) is Some;
            &&& opens ==> (workos matches Some(w) && r matches Some(c) && w.text("access_token"@)
                == Some(c.access_token) && c.refresh_token == w.text_or("refresh_token"@, ""@)
                && c.client_id == w.text_or("client_id"@, "client_GranolaMac"@))
            &&& !opens ==> (cognito matches Some(g) ==> (g.text("refresh_token"@) is None ==> r
                is None) && (g.text("refresh_token"@) matches Some(t) ==> (r matches Some(c)
                && c.refresh_token == t && c.access_token == g.text_or("access_token"@, ""@)
                && c.client_id == g.text_or("client_id"@, "client_GranolaMac"@))))
            &&& !opens && cognito is None ==> (file.text("refresh_token"@) is None ==> r is None)
                && (file.text("refresh_token"@) matches Some(t) ==> (r matches Some(c)
                && c.refresh_token == t && c.access_token == file.text_or("access_token"@, ""@)
                && c.client_id == file.text_or("client_id"@, "client_GranolaMac"@)))
        }),
{
}

/// What is said of an error names its cause: what the outside library said, the
/// status of the answer, or the files that were looked for.
pub proof fn law_errors_tell_their_cause(c: CauseView, status: u16, s: Seq<char>, path: Seq<char>)
    ensures
        error_message(ErrorView::Keyring(c)) == "keychain: "@ + c.text,
        error_message(ErrorView::Io(c)) == "io: "@ + c.text,
        error_message(ErrorView::Json(c)) == "json: "@ + c.text,
        error_message(ErrorView::Http(c)) == "network: "@ + c.text,
        text::holds(
            error_message(ErrorView::RefreshRejected { status }),
            "HTTP "@ + text::decimal(status as nat),
        ),
        text::holds(error_message(ErrorView::EncryptedDesktopCredentials(s)), s),
        text::holds(
            error_message(ErrorView::NoDesktopCredentials { tried: seq![path] }),
            text::quoted(path),
        ),
{
    let a = error_message(ErrorView::RefreshRejected { status });
    let p = "HTTP "@ + text::decimal(status as nat);
    let front = "refresh token rejected by authentication provider ("@;
    reveal_strlit("refresh token rejected by authentication provider (HTTP ");
    reveal_strlit("refresh token rejected by authentication provider (");
    reveal_strlit("HTTP ");
    assert(a =~= front + p + ")"@);
    text::law_parts_are_held(a, p);
    let b = error_message(ErrorView::EncryptedDesktopCredentials(s));
    assert(b =~= "could not read encrypted Granola desktop credentials: "@ + s + Seq::empty());
    text::law_parts_are_held(b, s);
    let d = error_message(ErrorView::NoDesktopCredentials { tried: seq![path] });
    assert(all_quoted(seq![path]) =~= seq![text::quoted(path)]);
    assert(d =~= "could not locate Granola desktop credentials — tried ["@ + text::quoted(path)
        + "]"@);
    text::law_parts_are_held(d, text::quoted(path));
}

/// A record has none of its fields twice, or is an array with one item for each.
pub proof fn law_records_have_each_field_once(
    fields: Seq<(Seq<char>, JsonView)>,
    items: Seq<JsonView>,
    keys: Seq<Seq<char>>,
)
    ensures
        is_record(JsonView::Object(fields), keys) <==> !exists|k: int, i: int, j: int|
            0 <= k < keys.len() && 0 <= i < j < fields.len() && #[trigger] fields[i].0 == keys[k]
                && #[trigger] fields[j].0 == #[trigger] keys[k],
        is_record(JsonView::Array(items), keys) <==> items.len() == keys.len(),
        forall|v: JsonView| !(v is Object) && !(v is Array) ==> !#[trigger] is_record(v, keys),
        accounts_keys() == seq!["accounts"@],
        account_keys() == seq!["tokens"@],
        token_keys() == seq!["access_token"@, "refresh_token"@, "client_id"@],
        supabase_keys() == seq![
            "workos_tokens"@,
            "cognito_tokens"@,
            "refresh_token"@,
            "access_token"@,
            "client_id"@,
        ],
{
    assert forall|k: int| 0 <= k < keys.len() implies (json::times(fields, #[trigger] keys[k]) > 1
        <==> exists|i: int, j: int|
        0 <= i < j < fields.len() && #[trigger] fields[i].0 == keys[k] && #[trigger] fields[j].0
            == keys[k]) by {
        json::law_two_fields_repeat_a_key(fields, keys[k]);
    }
}

/// A record that is an array has its fields at their places; null is nothing.
pub proof fn law_arrays_are_records_too(
    a: JsonView,
    b: JsonView,
    c: JsonView,
    key: Seq<char>,
)
    requires
        a is Text || a is Null,
        b is Text || b is Null,
        c is Text || c is Null,
    ensures
        tokens_in(JsonView::Array(seq![a, b, c])) matches Some(t) && t.access_token
            == json::text_in(Some(a)) && t.refresh_token == json::text_in(Some(b)) && t.client_id
            == json::text_in(Some(c)),
        tokens_in(JsonView::Array(seq![a, b])) is None,
        member(JsonView::Array(seq![a, b, c]), key, 0) == (if a is Null {
            None
        } else {
            Some(a)
        }),
        member(JsonView::Array(seq![a, b, c]), key, 2) == (if c is Null {
                None
            } else {
                Some(c)
            }),
        member(JsonView::Array(seq![a, b, c]), key, 3) is None,
{
}

/// A field of an object stands under its key, and null is nothing.
pub proof fn law_fields_stand_under_their_keys(v: JsonView, key: Seq<char>, i: int)
    requires
        v is Object,
    ensures
        v.get(key) is None || v.get(key) == Some(JsonView::Null) ==> member(v, key, i) is None,
        v.get(key) matches Some(w) ==> (!(w is Null) ==> member(v, key, i) == Some(w)),
{
}

/// Tokens are texts that may be missing, under their keys or at their places;
/// any other value is refused.
pub proof fn law_tokens_are_texts(v: JsonView, key: Seq<char>)
    requires
        v is Object,
        key == "access_token"@ || key == "refresh_token"@ || key == "client_id"@,
    ensures
        tokens_in(v) matches Some(t) ==> t.access_token == v.text("access_token"@)
            && t.refresh_token == v.text("refresh_token"@) && t.client_id == v.text("client_id"@),
        v.get(key) matches Some(w) ==> (!(w is Text) && !(w is Null) ==> tokens_in(v) is None),
        is_record(v, token_keys()) && (forall|k: Seq<char>|
            (k == "access_token"@ || k == "refresh_token"@ || k == "client_id"@) ==> (
            #[trigger] v.get(k) matches Some(w) ==> w is Text || w is Null)) ==> tokens_in(v)
            is Some,
{
    if forall|k: Seq<char>|
        (k == "access_token"@ || k == "refresh_token"@ || k == "client_id"@) ==> (
        #[trigger] v.get(k) matches Some(w) ==> w is Text || w is Null) {
        let a = v.get("access_token"@);
        let b = v.get("refresh_token"@);
        let c = v.get("client_id"@);
    }
}

/// All accounts must be accounts, the first among them; one whose tokens are
/// neither a text nor a record of tokens is none.
pub proof fn law_all_accounts_must_be_accounts(accounts: Seq<JsonView>, i: int, w: JsonView)
    requires
        0 <= i < accounts.len(),
    ensures
        !is_account(accounts[i]) ==> first_account(JsonView::Array(accounts)) is None,
        accounts[i] is Object && accounts[i].get("tokens"@) == Some(w) && !(w is Text) && !(w
            is Null) && tokens_in(w) is None ==> !is_account(accounts[i]),
        accounts[i] is Object && json::times(accounts[i]->Object_0, "tokens"@) > 1 ==> !is_account(
            accounts[i],
        ),
        forall|v: JsonView| !(v is Array) ==> #[trigger] first_account(v) is None,
{
    assert(account_keys()[0] == "tokens"@);
}

/// What lies behind an error is told after it, the nearest first.
pub proof fn law_causes_are_told_in_order(c: CauseView, s: Seq<char>)
    ensures
        cause_chain(CauseView { text: c.text, behind: Seq::empty() }) == c.text,
        cause_chain(CauseView { text: c.text, behind: c.behind.push(s) }) == cause_chain(c) + ": "@
            + s,
        error_chain(ErrorView::Keyring(c)) == "keychain: "@ + c.text + ": "@ + cause_chain(c),
        error_chain(ErrorView::Io(c)) == "io: "@ + c.text + ": "@ + cause_chain(c),
        error_chain(ErrorView::Json(c)) == "json: "@ + c.text + ": "@ + cause_chain(c),
        error_chain(ErrorView::Http(c)) == "network: "@ + c.text + ": "@ + cause_chain(c),
        error_chain(ErrorView::NoCredentials) == error_message(ErrorView::NoCredentials),
        error_chain(ErrorView::EncryptedDesktopCredentials(s)) == error_message(
            ErrorView::EncryptedDesktopCredentials(s),
        ),
        error_message(ErrorView::NoCredentials) == "no usable credentials in the OS keychain"@,
        error_message(ErrorView::NoHomeDir) == "could not determine user home/cache directory"@,
        DEFAULT_CLIENT_ID@ == "client_GranolaMac"@,
{
    assert(seq![c.text] + Seq::<Seq<char>>::empty() =~= seq![c.text]);
    let all = seq![c.text] + c.behind.push(s);
    assert(all.drop_last() =~= seq![c.text] + c.behind);
    assert(all.last() == s);
}

/// An optional text, or what stands in for it.
pub proof fn law_defaults_stand_in(s: Seq<char>, default: Seq<char>)
    ensures
        text_else(Some(s), default) == s,
        text_else(None, default) == default,
{
}

/// A record that stands as the array of its fields reads like the object with
/// those fields.
pub proof fn law_arrays_read_like_objects(
    w: JsonView,
    g: JsonView,
    r: JsonView,
    a: JsonView,
    c: JsonView,
)
    ensures
        supabase_credentials(JsonView::Array(seq![w, g, r, a, c])) == supabase_credentials(
            JsonView::Object(
                seq![
                    ("workos_tokens"@, w),
                    ("cognito_tokens"@, g),
                    ("refresh_token"@, r),
                    ("access_token"@, a),
                    ("client_id"@, c),
                ],
            ),
        ),
        tokens_in(JsonView::Array(seq![a, r, c])) == tokens_in(
            JsonView::Object(seq![("access_token"@, a), ("refresh_token"@, r), ("client_id"@, c)]),
        ),
        stored_credentials(JsonView::Array(seq![w])) == stored_credentials(
            JsonView::Object(seq![("accounts"@, w)]),
        ),
        is_account(JsonView::Array(seq![w])) == is_account(
            JsonView::Object(seq![("tokens"@, w)]),
        ),
        first_account(JsonView::Array(seq![JsonView::Array(seq![w])])) == first_account(
            JsonView::Array(seq![JsonView::Object(seq![("tokens"@, w)])]),
        ),
{
    let s = seq![
        ("workos_tokens"@, w),
        ("cognito_tokens"@, g),
        ("refresh_token"@, r),
        ("access_token"@, a),
        ("client_id"@, c),
    ];
    reveal_strlit("workos_tokens");
    reveal_strlit("cognito_tokens");
    reveal_strlit("refresh_token");
    reveal_strlit("access_token");
    reveal_strlit("client_id");
    assert("workos_tokens"@.len() != "cognito_tokens"@.len());
    assert("workos_tokens"@[0] != "refresh_token"@[0]);
    assert("workos_tokens"@.len() != "access_token"@.len());
    assert("workos_tokens"@.len() != "client_id"@.len());
    assert("cognito_tokens"@.len() != "refresh_token"@.len());
    assert("cognito_tokens"@.len() != "access_token"@.len());
    assert("cognito_tokens"@.len() != "client_id"@.len());
    assert("refresh_token"@.len() != "access_token"@.len());
    assert("refresh_token"@.len() != "client_id"@.len());
    assert("access_token"@.len() != "client_id"@.len());
    json::law_first_field_counts(s, "workos_tokens"@, 0);
    json::law_first_field_counts(s, "cognito_tokens"@, 1);
    json::law_first_field_counts(s, "refresh_token"@, 2);
    json::law_first_field_counts(s, "access_token"@, 3);
    json::law_first_field_counts(s, "client_id"@, 4);
    lemma_fields_once(s, supabase_keys());
    let t = seq![("access_token"@, a), ("refresh_token"@, r), ("client_id"@, c)];
    json::law_first_field_counts(t, "access_token"@, 0);
    json::law_first_field_counts(t, "refresh_token"@, 1);
    json::law_first_field_counts(t, "client_id"@, 2);
    lemma_fields_once(t, token_keys());
    let f = seq![("accounts"@, w)];
    json::law_first_field_counts(f, "accounts"@, 0);
    lemma_fields_once(f, accounts_keys());
    let o = seq![("tokens"@, w)];
    json::law_first_field_counts(o, "tokens"@, 0);
    lemma_fields_once(o, account_keys());
    let x = seq![JsonView::Array(seq![w])];
    let y = seq![JsonView::Object(o)];
    assert(member(x[0], "tokens"@, 0) == member(y[0], "tokens"@, 0));
    assert(is_account(x[0]) == is_account(y[0]));
    if is_account(x[0]) {
        assert(forall|i: int| 0 <= i < x.len() ==> is_account(#[trigger] x[i]));
        assert(forall|i: int| 0 <= i < y.len() ==> is_account(#[trigger] y[i]));
    }
}

/// Fields that stand for keys that differ are a record of those keys.
proof fn lemma_fields_once(fields: Seq<(Seq<char>, JsonView)>, keys: Seq<Seq<char>>)
    requires
        forall|i: int, j: int|
            0 <= i < j < fields.len() ==> (#[trigger] fields[i]).0 != (#[trigger] fields[j]).0,
    ensures
        is_record(JsonView::Object(fields), keys),
{
    law_records_have_each_field_once(fields, Seq::empty(), keys);
}

} // verus!
