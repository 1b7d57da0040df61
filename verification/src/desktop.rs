//! What the desktop app keeps on disk, and the credentials in it.

use crate::auth;
use crate::auth::{
    parse_stored_accounts, parse_supabase, Credentials, CredentialsView, Error, ErrorView,
};
use crate::json;
use crate::json::{add_field, no_fields, object, text_list, Json, JsonView};
use crate::storage;
use crate::storage::{decrypt_granola_storage, unwrap_storage_key};
use crate::text;
use crate::text::join;
use vstd::prelude::*;

verus! {

/// The names of the files.
pub const STORED_ACCOUNTS_FILE: &'static str = "stored-accounts.json";

pub const SUPABASE_FILE: &'static str = "supabase.json";

pub const ENCRYPTED_STORED_ACCOUNTS_FILE: &'static str = "stored-accounts.json.enc";

pub const ENCRYPTED_SUPABASE_FILE: &'static str = "supabase.json.enc";

pub const STORAGE_DEK_FILE: &'static str = "storage.dek";

// ---- Paths ------------------------------------------------------------------

/// The system that the program runs on.
#[derive(Debug, Clone, Copy, PartialEq, Eq, Structural)]
pub enum Platform {
    MacOs,
    Windows,
    Other,
}

/// The directory of the user that a path begins at.
#[derive(Debug, Clone, Copy, PartialEq, Eq, Structural)]
pub enum Base {
    Home,
    Config,
}

/// A path: a directory of the user, and the names that lead on from it.
#[derive(Debug, PartialEq, Eq)]
pub struct DesktopPath {
    pub base: Base,
    pub parts: Vec<String>,
}

/// What a [`DesktopPath`] says.
pub struct PathView {
    pub base: Base,
    pub parts: Seq<Seq<char>>,
}

impl View for DesktopPath {
    type V = PathView;

    open spec fn view(&self) -> PathView {
        PathView { base: self.base, parts: text::text_views(self.parts@) }
    }
}

/// The directory of the desktop app.
pub open spec fn directory(platform: Platform) -> PathView {
    match platform {
        Platform::MacOs => PathView {
            base: Base::Home,
            parts: seq!["Library"@, "Application Support"@, "Granola"@],
        },
        Platform::Windows => PathView { base: Base::Config, parts: seq!["Granola"@] },
        Platform::Other => PathView { base: Base::Home, parts: seq![".config"@, "granola"@] },
    }
}

/// A file in the directory of the desktop app, where the user's directories
/// are known.
pub open spec fn file_path(platform: Platform, known: bool, name: Seq<char>) -> Option<PathView> {
    if known {
        Some(
            PathView {
                base: directory(platform).base,
                parts: directory(platform).parts.push(name),
            },
        )
    } else {
        None
    }
}

/// The directory of the desktop app, where the user's directories are known.
pub fn granola_dir(platform: Platform, known: bool) -> (r: Option<DesktopPath>)
    ensures
        json::seen(r) == (if known {
            Some(directory(platform))
        } else {
            None
        }),
{
    if !known {
        return None;
    }
    let mut parts: Vec<String> = Vec::new();
    let base = match platform {
        Platform::MacOs => {
            parts.push("Library".to_owned());
            parts.push("Application Support".to_owned());
            parts.push("Granola".to_owned());
            Base::Home
        },
        Platform::Windows => {
            parts.push("Granola".to_owned());
            Base::Config
        },
        Platform::Other => {
            parts.push(".config".to_owned());
            parts.push("granola".to_owned());
            Base::Home
        },
    };
    assert(text::text_views(parts@) =~= directory(platform).parts);
    Some(DesktopPath { base, parts })
}

/// A file in the directory of the desktop app.
fn granola_file(platform: Platform, known: bool, name: &str) -> (r: Option<DesktopPath>)
    ensures
        json::seen(r) == file_path(platform, known, name@),
{
    match granola_dir(platform, known) {
        Some(dir) => {
            let mut parts = dir.parts;
            parts.push(name.to_owned());
            assert(text::text_views(parts@) =~= directory(platform).parts.push(name@));
            Some(DesktopPath { base: dir.base, parts })
        },
        None => None,
    }
}

/// The file of stored accounts.
pub fn stored_accounts_path(platform: Platform, known: bool) -> (r: Option<DesktopPath>)
    ensures
        json::seen(r) == file_path(platform, known, STORED_ACCOUNTS_FILE@),
{
    granola_file(platform, known, STORED_ACCOUNTS_FILE)
}

/// The Supabase file.
pub fn supabase_path(platform: Platform, known: bool) -> (r: Option<DesktopPath>)
    ensures
        json::seen(r) == file_path(platform, known, SUPABASE_FILE@),
{
    granola_file(platform, known, SUPABASE_FILE)
}

/// The encrypted file of stored accounts.
pub fn encrypted_stored_accounts_path(platform: Platform, known: bool) -> (r: Option<DesktopPath>)
    ensures
        json::seen(r) == file_path(platform, known, ENCRYPTED_STORED_ACCOUNTS_FILE@),
{
    granola_file(platform, known, ENCRYPTED_STORED_ACCOUNTS_FILE)
}

/// The encrypted Supabase file.
pub fn encrypted_supabase_path(platform: Platform, known: bool) -> (r: Option<DesktopPath>)
    ensures
        json::seen(r) == file_path(platform, known, ENCRYPTED_SUPABASE_FILE@),
{
    granola_file(platform, known, ENCRYPTED_SUPABASE_FILE)
}

/// The file of the wrapped key.
pub fn storage_dek_path(platform: Platform, known: bool) -> (r: Option<DesktopPath>)
    ensures
        json::seen(r) == file_path(platform, known, STORAGE_DEK_FILE@),
{
    granola_file(platform, known, STORAGE_DEK_FILE)
}

// ---- Files ------------------------------------------------------------------

/// A plaintext file: its path for a reader, whether it is there, and its text
/// if it could be read.
pub struct PlainFile {
    pub path: String,
    pub present: bool,
    pub text: Option<String>,
}

/// An encrypted file: its path for a reader, whether it is there, and its bytes
/// or why they could not be read.
pub struct SealedFile {
    pub path: String,
    pub present: bool,
    pub bytes: Result<Vec<u8>, String>,
}

/// What was found in the directory of the desktop app.
pub struct DesktopFiles {
    pub stored_accounts: PlainFile,
    pub supabase: PlainFile,
    pub encrypted_stored_accounts: SealedFile,
    pub encrypted_supabase: SealedFile,
    pub dek_present: bool,
}

/// What a [`PlainFile`] says.
pub struct PlainView {
    pub path: Seq<char>,
    pub present: bool,
    pub text: Option<Seq<char>>,
}

/// What a [`SealedFile`] says.
pub struct SealedView {
    pub path: Seq<char>,
    pub present: bool,
    pub bytes: Result<Seq<u8>, Seq<char>>,
}

/// What [`DesktopFiles`] say.
pub struct FilesView {
    pub stored_accounts: PlainView,
    pub supabase: PlainView,
    pub encrypted_stored_accounts: SealedView,
    pub encrypted_supabase: SealedView,
    pub dek_present: bool,
}

impl View for PlainFile {
    type V = PlainView;

    open spec fn view(&self) -> PlainView {
        PlainView { path: self.path@, present: self.present, text: json::seen(self.text) }
    }
}

impl View for SealedFile {
    type V = SealedView;

    open spec fn view(&self) -> SealedView {
        SealedView {
            path: self.path@,
            present: self.present,
            bytes: match self.bytes {
                Ok(v) => Ok(v@),
                Err(e) => Err(e@),
            },
        }
    }
}

impl View for DesktopFiles {
    type V = FilesView;

    open spec fn view(&self) -> FilesView {
        FilesView {
            stored_accounts: self.stored_accounts@,
            supabase: self.supabase@,
            encrypted_stored_accounts: self.encrypted_stored_accounts@,
            encrypted_supabase: self.encrypted_supabase@,
            dek_present: self.dek_present,
        }
    }
}

// ---- State ------------------------------------------------------------------

/// Which credential files there are. It holds facts of files, and never a
/// token.
#[derive(Debug, PartialEq, Eq)]
pub struct DesktopState {
    /// The plaintext files that are there.
    pub plaintext_files: Vec<String>,
    /// The encrypted files that are there.
    pub encrypted_files: Vec<String>,
    /// Whether the wrapped key is there.
    pub storage_dek_present: bool,
    /// Whether a plaintext file holds a refresh token.
    pub plaintext_refresh_token_present: bool,
    /// Whether an import has to ask for the desktop app's own keychain item.
    pub needs_cross_app_keychain: bool,
}

/// What a [`DesktopState`] says.
#[verifier::ext_equal]
pub struct StateView {
    pub plaintext_files: Seq<Seq<char>>,
    pub encrypted_files: Seq<Seq<char>>,
    pub storage_dek_present: bool,
    pub plaintext_refresh_token_present: bool,
    pub needs_cross_app_keychain: bool,
}

impl View for DesktopState {
    type V = StateView;

    open spec fn view(&self) -> StateView {
        StateView {
            plaintext_files: text::text_views(self.plaintext_files@),
            encrypted_files: text::text_views(self.encrypted_files@),
            storage_dek_present: self.storage_dek_present,
            plaintext_refresh_token_present: self.plaintext_refresh_token_present,
            needs_cross_app_keychain: self.needs_cross_app_keychain,
        }
    }
}

/// Those of two names whose files are there.
pub open spec fn present_of(
    a: Seq<char>,
    a_present: bool,
    b: Seq<char>,
    b_present: bool,
) -> Seq<Seq<char>> {
    if a_present && b_present {
        seq![a, b]
    } else if a_present {
        seq![a]
    } else if b_present {
        seq![b]
    } else {
        Seq::empty()
    }
}

/// Whether optional credentials can renew a session.
pub open spec fn renews(o: Option<CredentialsView>) -> bool {
    o matches Some(c) && c.refresh_token.len() > 0
}

/// The credentials in a file of stored accounts, if it could be read.
pub open spec fn stored_in(f: PlainView) -> Option<CredentialsView> {
    match f.text {
        Some(s) => auth::stored_credentials_in(s),
        None => None,
    }
}

/// The credentials in a Supabase file, if it could be read.
pub open spec fn supabase_in(f: PlainView) -> Option<CredentialsView> {
    match f.text {
        Some(s) => auth::supabase_credentials_in(s),
        None => None,
    }
}

/// The state of some files. Where the directory is not known, nothing is
/// there.
pub open spec fn state_of(files: Option<FilesView>) -> StateView {
    match files {
        Some(f) => StateView {
            plaintext_files: present_of(
                STORED_ACCOUNTS_FILE@,
                f.stored_accounts.present,
                SUPABASE_FILE@,
                f.supabase.present,
            ),
            encrypted_files: present_of(
                ENCRYPTED_STORED_ACCOUNTS_FILE@,
                f.encrypted_stored_accounts.present,
                ENCRYPTED_SUPABASE_FILE@,
                f.encrypted_supabase.present,
            ),
            storage_dek_present: f.dek_present,
            plaintext_refresh_token_present: renews(stored_in(f.stored_accounts)) || renews(
                supabase_in(f.supabase),
            ),
            needs_cross_app_keychain: (f.encrypted_stored_accounts.present
                || f.encrypted_supabase.present) && f.dek_present,
        },
        None => StateView {
            plaintext_files: Seq::empty(),
            encrypted_files: Seq::empty(),
            storage_dek_present: false,
            plaintext_refresh_token_present: false,
            needs_cross_app_keychain: false,
        },
    }
}

/// A state as a JSON document.
pub open spec fn state_json(s: StateView) -> JsonView {
    JsonView::Object(
        seq![
            ("plaintext_files"@, json::text_array(s.plaintext_files)),
            ("encrypted_files"@, json::text_array(s.encrypted_files)),
            ("storage_dek_present"@, JsonView::Bool(s.storage_dek_present)),
            (
                "plaintext_refresh_token_present"@,
                JsonView::Bool(s.plaintext_refresh_token_present),
            ),
            ("needs_cross_app_keychain"@, JsonView::Bool(s.needs_cross_app_keychain)),
        ],
    )
}

/// The credentials in a file of stored accounts, if it could be read.
fn stored_of(f: &PlainFile) -> (r: Option<Credentials>)
    ensures
        json::seen(r) == stored_in(f@),
{
    match &f.text {
        Some(s) => parse_stored_accounts(s.as_str()),
        None => None,
    }
}

/// The credentials in a Supabase file, if it could be read.
fn supabase_of(f: &PlainFile) -> (r: Option<Credentials>)
    ensures
        json::seen(r) == supabase_in(f@),
{
    match &f.text {
        Some(s) => parse_supabase(s.as_str()),
        None => None,
    }
}

/// Whether optional credentials can renew a session.
fn can_renew(o: &Option<Credentials>) -> (r: bool)
    ensures
        r == renews(json::seen(*o)),
{
    match o {
        Some(c) => !c.refresh_token.as_str().is_empty(),
        None => false,
    }
}

/// Those of two names whose files are there.
fn names_present(a: &str, a_present: bool, b: &str, b_present: bool) -> (r: Vec<String>)
    ensures
        text::text_views(r@) == present_of(a@, a_present, b@, b_present),
{
    let mut out: Vec<String> = Vec::new();
    if a_present {
        out.push(a.to_owned());
    }
    if b_present {
        out.push(b.to_owned());
    }
    assert(text::text_views(out@) =~= present_of(a@, a_present, b@, b_present));
    out
}

/// Which credential files there are.
pub fn desktop_state(files: Option<&DesktopFiles>) -> (r: DesktopState)
    ensures
        r@ == state_of(json::seen(files)),
{
    let r = match files {
        Some(f) => DesktopState {
            plaintext_files: names_present(
                STORED_ACCOUNTS_FILE,
                f.stored_accounts.present,
                SUPABASE_FILE,
                f.supabase.present,
            ),
            encrypted_files: names_present(
                ENCRYPTED_STORED_ACCOUNTS_FILE,
                f.encrypted_stored_accounts.present,
                ENCRYPTED_SUPABASE_FILE,
                f.encrypted_supabase.present,
            ),
            storage_dek_present: f.dek_present,
            plaintext_refresh_token_present: can_renew(&stored_of(&f.stored_accounts))
                || can_renew(&supabase_of(&f.supabase)),
            needs_cross_app_keychain: (f.encrypted_stored_accounts.present
                || f.encrypted_supabase.present) && f.dek_present,
        },
        None => DesktopState {
            plaintext_files: Vec::new(),
            encrypted_files: Vec::new(),
            storage_dek_present: false,
            plaintext_refresh_token_present: false,
            needs_cross_app_keychain: false,
        },
    };
    assert(r@ =~= state_of(json::seen(files)));
    r
}

impl DesktopState {
    /// The state as a JSON document.
    pub fn to_json(&self) -> (r: Json)
        ensures
            r@ == state_json(self@),
    {
        let mut fields = no_fields();
        add_field(&mut fields, "plaintext_files", text_list(&self.plaintext_files));
        add_field(&mut fields, "encrypted_files", text_list(&self.encrypted_files));
        add_field(&mut fields, "storage_dek_present", Json::Bool(self.storage_dek_present));
        add_field(
            &mut fields,
            "plaintext_refresh_token_present",
            Json::Bool(self.plaintext_refresh_token_present),
        );
        add_field(
            &mut fields,
            "needs_cross_app_keychain",
            Json::Bool(self.needs_cross_app_keychain),
        );
        assert(json::field_views(fields@) =~= state_json(self@)->Object_0);
        object(fields)
    }
}

// ---- Import -----------------------------------------------------------------

/// What came of asking for the wrapped key and the password that unwraps it.
pub enum KeyReading {
    /// It was not asked for.
    NotAsked,
    /// One of them could not be had.
    Failed(Error),
    /// Both are here.
    Read { wrapped: Vec<u8>, password: String },
}

/// What a [`KeyReading`] says.
pub enum KeyView {
    NotAsked,
    Failed(ErrorView),
    Read { wrapped: Seq<u8>, password: Seq<char> },
}

impl View for KeyReading {
    type V = KeyView;

    open spec fn view(&self) -> KeyView {
        match self {
            KeyReading::NotAsked => KeyView::NotAsked,
            KeyReading::Failed(e) => KeyView::Failed(e@),
            KeyReading::Read { wrapped, password } => KeyView::Read {
                wrapped: wrapped@,
                password: password@,
            },
        }
    }
}

/// Whether there are encrypted files to import, which only macOS has.
pub open spec fn has_encrypted(platform: Platform, files: Option<FilesView>) -> bool {
    platform == Platform::MacOs && (files matches Some(f) && (f.encrypted_stored_accounts.present
        || f.encrypted_supabase.present))
}

/// Whether an import needs the wrapped key and its password.
pub open spec fn key_needed(platform: Platform, files: Option<FilesView>) -> bool {
    has_encrypted(platform, files) && files->0.dek_present
}

/// What comes of one encrypted file: its credentials, or a failure that names
/// it.
pub open spec fn sealed_outcome(f: SealedView, key: Seq<u8>, is_supabase: bool) -> Result<
    CredentialsView,
    Seq<char>,
> {
    match f.bytes {
        Err(e) => Err(f.path + ": "@ + e),
        Ok(bytes) => match storage::storage_value(bytes, key) {
            Err(e) => Err(
                f.path + ": "@ + auth::error_message(ErrorView::EncryptedDesktopCredentials(e)),
            ),
            Ok(s) => {
                let found = if is_supabase {
                    auth::supabase_credentials_in(s)
                } else {
                    auth::stored_credentials_in(s)
                };
                match found {
                    Some(c) => Ok(c),
                    None => Err(
                        f.path + " decrypted but did not match the expected credential shape"@,
                    ),
                }
            },
        },
    }
}

/// What comes of the encrypted files that are there, under their key: the
/// first credentials, or all failures.
pub open spec fn opened_files(f: FilesView, key: Seq<u8>) -> Result<CredentialsView, ErrorView> {
    let a = sealed_outcome(f.encrypted_stored_accounts, key, false);
    let b = sealed_outcome(f.encrypted_supabase, key, true);
    if f.encrypted_stored_accounts.present && a is Ok {
        Ok(a->Ok_0)
    } else if f.encrypted_supabase.present && b is Ok {
        Ok(b->Ok_0)
    } else {
        Err(
            ErrorView::EncryptedDesktopCredentials(
                "found encrypted Granola desktop credentials but could not import them: "@
                    + text::joined(
                    present_of(
                        a->Err_0,
                        f.encrypted_stored_accounts.present,
                        b->Err_0,
                        f.encrypted_supabase.present,
                    ),
                    "; "@,
                ),
            ),
        )
    }
}

/// The credentials of encrypted files: none, where there are no such files.
pub open spec fn encrypted_credentials(
    platform: Platform,
    files: Option<FilesView>,
    key: KeyView,
) -> Result<Option<CredentialsView>, ErrorView> {
    if !has_encrypted(platform, files) {
        Ok(None)
    } else if !files->0.dek_present {
        Err(ErrorView::DesktopKeyMigrated)
    } else {
        match key {
            KeyView::NotAsked => Err(
                ErrorView::EncryptedDesktopCredentials("the storage key was not asked for"@),
            ),
            KeyView::Failed(e) => Err(e),
            KeyView::Read { wrapped, password } => match storage::unwrapped_key(wrapped, password) {
                Err(e) => Err(ErrorView::EncryptedDesktopCredentials(e)),
                Ok(k) => match opened_files(files->0, k) {
                    Ok(c) => Ok(Some(c)),
                    Err(e) => Err(e),
                },
            },
        }
    }
}

/// The paths of the plaintext files.
pub open spec fn plain_paths(files: Option<FilesView>) -> Seq<Seq<char>> {
    match files {
        Some(f) => seq![f.stored_accounts.path, f.supabase.path],
        None => Seq::empty(),
    }
}

/// The paths that an import looks at: on macOS those of the encrypted files,
/// then those of the plaintext files.
pub open spec fn all_paths(platform: Platform, files: Option<FilesView>) -> Seq<Seq<char>> {
    match files {
        Some(f) => if platform == Platform::MacOs {
            seq![
                f.encrypted_stored_accounts.path,
                f.encrypted_supabase.path,
                f.stored_accounts.path,
                f.supabase.path,
            ]
        } else {
            plain_paths(files)
        },
        None => Seq::empty(),
    }
}

/// The credentials of the plaintext files: of the stored accounts, else of the
/// Supabase file.
pub open spec fn plain_credentials(files: Option<FilesView>) -> Option<CredentialsView> {
    match files {
        Some(f) => json::first_of(stored_in(f.stored_accounts), supabase_in(f.supabase)),
        None => None,
    }
}

/// The credentials that an import finds. Encrypted files, where there are any,
/// decide: plaintext files beside them are out of date.
pub open spec fn imported(
    platform: Platform,
    files: Option<FilesView>,
    key: KeyView,
) -> Result<CredentialsView, ErrorView> {
    match encrypted_credentials(platform, files, key) {
        Err(e) => Err(e),
        Ok(Some(c)) => Ok(c),
        Ok(None) => match plain_credentials(files) {
            Some(c) => Ok(c),
            None => Err(
                ErrorView::NoDesktopCredentials { tried: all_paths(platform, files) },
            ),
        },
    }
}

/// Optional credentials, if they can renew a session.
pub open spec fn if_renews(o: Option<CredentialsView>) -> Option<CredentialsView> {
    if renews(o) {
        o
    } else {
        None
    }
}

/// The plaintext credentials that can renew a session: of the stored accounts,
/// else of the Supabase file.
pub open spec fn legacy_credentials(files: Option<FilesView>) -> Result<
    CredentialsView,
    ErrorView,
> {
    let found = match files {
        Some(f) => json::first_of(
            if_renews(stored_in(f.stored_accounts)),
            if_renews(supabase_in(f.supabase)),
        ),
        None => None,
    };
    match found {
        Some(c) => Ok(c),
        None => Err(ErrorView::NoDesktopCredentials { tried: plain_paths(files) }),
    }
}

/// What a result with credentials says.
pub open spec fn credentials_result(r: Result<Credentials, Error>) -> Result<
    CredentialsView,
    ErrorView,
> {
    match r {
        Ok(c) => Ok(c@),
        Err(e) => Err(e@),
    }
}

/// Whether an import needs the wrapped key and its password. They are to be
/// asked for only then: the keychain may hold the call until a person answers.
pub fn needs_key(platform: Platform, files: Option<&DesktopFiles>) -> (r: bool)
    ensures
        r == key_needed(platform, json::seen(files)),
{
    match files {
        Some(f) => platform == Platform::MacOs && (f.encrypted_stored_accounts.present
            || f.encrypted_supabase.present) && f.dek_present,
        None => false,
    }
}

/// Whether the desktop app's key has moved away: there are encrypted files to
/// import, and no wrapped key.
pub fn is_migrated(platform: Platform, files: Option<&DesktopFiles>) -> (r: bool)
    ensures
        r == (has_encrypted(platform, json::seen(files)) && !json::seen(files)->0.dek_present),
{
    match files {
        Some(f) => platform == Platform::MacOs && (f.encrypted_stored_accounts.present
            || f.encrypted_supabase.present) && !f.dek_present,
        None => false,
    }
}

/// Text after a path.
fn after_path(path: &str, words: &str, cause: &str) -> (r: String)
    ensures
        r@ == path@ + words@ + cause@,
{
    let mut out: String = path.to_owned();
    out.append(words);
    out.append(cause);
    out
}

/// What comes of one encrypted file.
fn open_sealed(f: &SealedFile, key: &Vec<u8>, is_supabase: bool) -> (r: Result<
    Credentials,
    String,
>)
    ensures
        match sealed_outcome(f@, key@, is_supabase) {
            Ok(c) => r matches Ok(d) && d@ == c,
            Err(e) => r matches Err(d) && d@ == e,
        },
{
    match &f.bytes {
        Err(e) => Err(after_path(f.path.as_str(), ": ", e.as_str())),
        Ok(bytes) => match decrypt_granola_storage(bytes, key) {
            Err(e) => Err(after_path(f.path.as_str(), ": ", e.message().as_str())),
            Ok(s) => {
                let found = if is_supabase {
                    parse_supabase(s.as_str())
                } else {
                    parse_stored_accounts(s.as_str())
                };
                match found {
                    Some(c) => Ok(c),
                    None => {
                        let out = after_path(
                            f.path.as_str(),
                            " decrypted but did not match the expected credential shape",
                            "",
                        );
                        proof {
                            reveal_strlit("");
                            assert(out@ =~= f.path@
                                + " decrypted but did not match the expected credential shape"@);
                        }
                        Err(out)
                    },
                }
            },
        },
    }
}

/// What comes of the encrypted files that are there, under their key.
fn open_files(f: &DesktopFiles, key: &Vec<u8>) -> (r: Result<Credentials, Error>)
    ensures
        credentials_result(r) == opened_files(f@, key@),
{
    let mut failures: Vec<String> = Vec::new();
    if f.encrypted_stored_accounts.present {
        match open_sealed(&f.encrypted_stored_accounts, key, false) {
            Ok(c) => {
                return Ok(c);
            },
            Err(e) => {
                failures.push(e);
            },
        }
    }
    if f.encrypted_supabase.present {
        match open_sealed(&f.encrypted_supabase, key, true) {
            Ok(c) => {
                return Ok(c);
            },
            Err(e) => {
                failures.push(e);
            },
        }
    }
    let mut out: String =
        "found encrypted Granola desktop credentials but could not import them: ".to_owned();
    out.append(join(&failures, "; ").as_str());
    proof {
        let a = sealed_outcome(f@.encrypted_stored_accounts, key@, false);
        let b = sealed_outcome(f@.encrypted_supabase, key@, true);
        assert(text::text_views(failures@) =~= present_of(
            a->Err_0,
            f@.encrypted_stored_accounts.present,
            b->Err_0,
            f@.encrypted_supabase.present,
        ));
    }
    Err(Error::EncryptedDesktopCredentials(out))
}

/// The credentials of encrypted files.
fn load_encrypted_credentials_from_file(
    platform: Platform,
    files: Option<&DesktopFiles>,
    key: KeyReading,
) -> (r: Result<Option<Credentials>, Error>)
    ensures
        match encrypted_credentials(platform, json::seen(files), key@) {
            Ok(o) => r matches Ok(p) && json::seen(p) == o,
            Err(e) => r matches Err(d) && d@ == e,
        },
{
    match files {
        None => Ok(None),
        Some(f) => {
            if platform != Platform::MacOs || !(f.encrypted_stored_accounts.present
                || f.encrypted_supabase.present) {
                return Ok(None);
            }
            if !f.dek_present {
                return Err(Error::DesktopKeyMigrated);
            }
            match key {
                KeyReading::NotAsked => Err(
                    Error::EncryptedDesktopCredentials(
                        "the storage key was not asked for".to_owned(),
                    ),
                ),
                KeyReading::Failed(e) => Err(e),
                KeyReading::Read { wrapped, password } => match unwrap_storage_key(
                    &wrapped,
                    password.as_str(),
                ) {
                    Err(e) => Err(e),
                    Ok(k) => match open_files(f, &k) {
                        Ok(c) => Ok(Some(c)),
                        Err(e) => Err(e),
                    },
                },
            }
        },
    }
}

/// The paths that an import looks at.
fn tried_paths(platform: Platform, files: Option<&DesktopFiles>) -> (r: Vec<String>)
    ensures
        text::text_views(r@) == all_paths(platform, json::seen(files)),
{
    let mut out: Vec<String> = Vec::new();
    if let Some(f) = files {
        if platform == Platform::MacOs {
            out.push(f.encrypted_stored_accounts.path.clone());
            out.push(f.encrypted_supabase.path.clone());
        }
        out.push(f.stored_accounts.path.clone());
        out.push(f.supabase.path.clone());
    }
    assert(text::text_views(out@) =~= all_paths(platform, json::seen(files)));
    out
}

/// The credentials that the desktop app left: of its encrypted files, where
/// there are any, else of the stored accounts, else of the Supabase file.
pub fn load_credentials_from_file(
    platform: Platform,
    files: Option<&DesktopFiles>,
    key: KeyReading,
) -> (r: Result<Credentials, Error>)
    ensures
        credentials_result(r) == imported(platform, json::seen(files), key@),
{
    match load_encrypted_credentials_from_file(platform, files, key) {
        Err(e) => Err(e),
        Ok(Some(c)) => Ok(c),
        Ok(None) => {
            if let Some(f) = files {
                if let Some(c) = stored_of(&f.stored_accounts) {
                    return Ok(c);
                }
                if let Some(c) = supabase_of(&f.supabase) {
                    return Ok(c);
                }
            }
            Err(Error::NoDesktopCredentials { tried: tried_paths(platform, files) })
        },
    }
}

/// The plaintext credentials that can renew a session. Their access token is
/// out of date; only the refresh token counts.
pub fn load_legacy_refresh_credentials(files: Option<&DesktopFiles>) -> (r: Result<
    Credentials,
    Error,
>)
    ensures
        credentials_result(r) == legacy_credentials(json::seen(files)),
{
    if let Some(f) = files {
        let stored = stored_of(&f.stored_accounts);
        if can_renew(&stored) {
            if let Some(c) = stored {
                return Ok(c);
            }
        }
        let supabase = supabase_of(&f.supabase);
        if can_renew(&supabase) {
            if let Some(c) = supabase {
                return Ok(c);
            }
        }
    }
    let mut tried: Vec<String> = Vec::new();
    if let Some(f) = files {
        tried.push(f.stored_accounts.path.clone());
        tried.push(f.supabase.path.clone());
    }
    assert(text::text_views(tried@) =~= plain_paths(json::seen(files)));
    Err(Error::NoDesktopCredentials { tried })
}

// ---- What holds of the desktop's files --------------------------------------

/// A state says nothing of tokens but whether there is one: files that are
/// there alike, and that hold a refresh token alike, have the same state.
pub proof fn law_state_says_no_token(a: FilesView, b: FilesView)
    requires
        a.stored_accounts.present == b.stored_accounts.present,
        a.supabase.present == b.supabase.present,
        a.encrypted_stored_accounts.present == b.encrypted_stored_accounts.present,
        a.encrypted_supabase.present == b.encrypted_supabase.present,
        a.dek_present == b.dek_present,
        state_of(Some(a)).plaintext_refresh_token_present == state_of(
            Some(b),
        ).plaintext_refresh_token_present,
    ensures
        state_of(Some(a)) == state_of(Some(b)),
{
}

/// On macOS an import asks the keychain exactly where the state says so.
pub proof fn law_state_tells_of_the_keychain(files: Option<FilesView>)
    ensures
        state_of(files).needs_cross_app_keychain == key_needed(Platform::MacOs, files),
{
}

/// A state says that there is a refresh token exactly where the plaintext
/// credentials can renew a session.
pub proof fn law_state_tells_of_the_refresh_token(files: Option<FilesView>)
    ensures
        state_of(files).plaintext_refresh_token_present <==> legacy_credentials(files) is Ok,
        legacy_credentials(files) matches Ok(c) ==> c.refresh_token.len() > 0,
{
}

/// Beside encrypted files, plaintext ones never count: what they hold changes
/// nothing.
pub proof fn law_encrypted_files_decide(a: FilesView, b: FilesView, key: KeyView)
    requires
        has_encrypted(Platform::MacOs, Some(a)),
        a.encrypted_stored_accounts == b.encrypted_stored_accounts,
        a.encrypted_supabase == b.encrypted_supabase,
        a.dek_present == b.dek_present,
    ensures
        imported(Platform::MacOs, Some(a), key) == imported(Platform::MacOs, Some(b), key),
{
}

/// Without the wrapped key, encrypted files are given up before the keychain is
/// asked.
pub proof fn law_migrated_key_is_not_asked_for(files: FilesView, key: KeyView)
    requires
        has_encrypted(Platform::MacOs, Some(files)),
        !files.dek_present,
    ensures
        !key_needed(Platform::MacOs, Some(files)),
        imported(Platform::MacOs, Some(files), key) == Err::<CredentialsView, ErrorView>(
            ErrorView::DesktopKeyMigrated,
        ),
{
}

/// On every platform, where there is no encrypted file to import, the plaintext
/// files count: the stored accounts, else the Supabase file. An import fails for
/// want of files only where neither gives credentials, and then names both. What
/// came of asking for the key does not matter.
pub proof fn law_plaintext_counts_everywhere(
    platform: Platform,
    f: FilesView,
    key: KeyView,
    c: CredentialsView,
)
    requires
        platform != Platform::MacOs || (!f.encrypted_stored_accounts.present
            && !f.encrypted_supabase.present),
    ensures
        (f.stored_accounts.text matches Some(s) && auth::stored_credentials_in(s) == Some(c))
            ==> imported(platform, Some(f), key) == Ok::<CredentialsView, ErrorView>(c),
        !(f.stored_accounts.text matches Some(s) && auth::stored_credentials_in(s) is Some) && (
        f.supabase.text matches Some(s) && auth::supabase_credentials_in(s) == Some(c))
            ==> imported(platform, Some(f), key) == Ok::<CredentialsView, ErrorView>(c),
        !(f.stored_accounts.text matches Some(s) && auth::stored_credentials_in(s) is Some) && !(
        f.supabase.text matches Some(s) && auth::supabase_credentials_in(s) is Some) ==> (
        imported(platform, Some(f), key) matches Err(ErrorView::NoDesktopCredentials { tried })
            && tried.contains(f.stored_accounts.path) && tried.contains(f.supabase.path) && (
        platform == Platform::MacOs ==> tried.contains(f.encrypted_stored_accounts.path)
            && tried.contains(f.encrypted_supabase.path) && tried.len() == 4) && (platform
            != Platform::MacOs ==> tried.len() == 2)),
        !key_needed(platform, Some(f)),
{
    let tried = all_paths(platform, Some(f));
    if platform == Platform::MacOs {
        assert(tried[0] == f.encrypted_stored_accounts.path);
        assert(tried[1] == f.encrypted_supabase.path);
        assert(tried[2] == f.stored_accounts.path);
        assert(tried[3] == f.supabase.path);
    } else {
        assert(tried[0] == f.stored_accounts.path);
        assert(tried[1] == f.supabase.path);
    }
}

/// An import fails for want of files only where it has no encrypted file and
/// neither plaintext file gives credentials.
pub proof fn law_import_fails_only_for_want_of_files(
    platform: Platform,
    f: FilesView,
    wrapped: Seq<u8>,
    password: Seq<char>,
)
    ensures
        imported(
            platform,
            Some(f),
            KeyView::Read { wrapped, password },
        ) matches Err(ErrorView::NoDesktopCredentials { tried }) ==> {
            &&& platform == Platform::MacOs ==> !f.encrypted_stored_accounts.present
                && !f.encrypted_supabase.present
            &&& f.stored_accounts.text matches Some(s) ==> auth::stored_credentials_in(s) is None
            &&& f.supabase.text matches Some(s) ==> auth::supabase_credentials_in(s) is None
        },
        imported(platform, None, KeyView::NotAsked) matches Err(
            ErrorView::NoDesktopCredentials { tried },
        ) && tried.len() == 0,
{
}

/// Encrypted files are opened with the key that the password unwraps: the stored
/// accounts first, and the Supabase file where those are missing or give no
/// credentials. Where neither gives any, that is said, and no other file counts.
pub proof fn law_encrypted_files_are_opened(
    f: FilesView,
    wrapped: Seq<u8>,
    password: Seq<char>,
    k: Seq<u8>,
    c: CredentialsView,
)
    requires
        f.encrypted_stored_accounts.present || f.encrypted_supabase.present,
        f.dek_present,
        storage::unwrapped_key(wrapped, password) == Ok::<Seq<u8>, Seq<char>>(k),
    ensures
        ({
            let r = imported(Platform::MacOs, Some(f), KeyView::Read { wrapped, password });
            let stored = f.encrypted_stored_accounts.present && (
            f.encrypted_stored_accounts.bytes matches Ok(b) && (storage::storage_value(
                b,
                k,
            ) matches Ok(s) && auth::stored_credentials_in(s) is Some));
            let supabase = f.encrypted_supabase.present && (
            f.encrypted_supabase.bytes matches Ok(b) && (storage::storage_value(b, k) matches Ok(
                s,
            ) && auth::supabase_credentials_in(s) is Some));
            &&& stored ==> (f.encrypted_stored_accounts.bytes matches Ok(b) && (
            storage::storage_value(b, k) matches Ok(s) && (auth::stored_credentials_in(
                s,
            ) matches Some(d) && r == Ok::<CredentialsView, ErrorView>(d))))
            &&& !stored && supabase ==> (f.encrypted_supabase.bytes matches Ok(b) && (
            storage::storage_value(b, k) matches Ok(s) && (auth::supabase_credentials_in(
                s,
            ) matches Some(d) && r == Ok::<CredentialsView, ErrorView>(d))))
            &&& !stored && !supabase ==> r matches Err(ErrorView::EncryptedDesktopCredentials(_))
        }),
        key_needed(Platform::MacOs, Some(f)),
{
}

/// What stands in the way of the key is what an import of encrypted files ends
/// with.
pub proof fn law_failed_key_is_told(
    f: FilesView,
    e: ErrorView,
    wrapped: Seq<u8>,
    password: Seq<char>,
    words: Seq<char>,
)
    requires
        f.encrypted_stored_accounts.present || f.encrypted_supabase.present,
    ensures
        f.dek_present ==> imported(Platform::MacOs, Some(f), KeyView::Failed(e)) == Err::<
            CredentialsView,
            ErrorView,
        >(e),
        f.dek_present && storage::unwrapped_key(wrapped, password) == Err::<Seq<u8>, Seq<char>>(
            words,
        ) ==> imported(Platform::MacOs, Some(f), KeyView::Read { wrapped, password }) == Err::<
            CredentialsView,
            ErrorView,
        >(ErrorView::EncryptedDesktopCredentials(words)),
        !f.dek_present ==> imported(Platform::MacOs, Some(f), KeyView::NotAsked) == Err::<
            CredentialsView,
            ErrorView,
        >(ErrorView::DesktopKeyMigrated),
{
}

/// Where encrypted files cannot be imported, each that is there is named, and no
/// other.
pub proof fn law_unopened_files_are_named(f: FilesView, key: Seq<u8>)
    ensures
        opened_files(f, key) matches Err(ErrorView::EncryptedDesktopCredentials(words)) ==> {
            &&& f.encrypted_stored_accounts.present ==> text::holds(
                words,
                f.encrypted_stored_accounts.path,
            )
            &&& f.encrypted_supabase.present ==> text::holds(words, f.encrypted_supabase.path)
        },
        opened_files(f, key) matches Err(e) ==> e is EncryptedDesktopCredentials,
{
    if let Err(ErrorView::EncryptedDesktopCredentials(words)) = opened_files(f, key) {
        let head =
            "found encrypted Granola desktop credentials but could not import them: "@;
        let a = sealed_outcome(f.encrypted_stored_accounts, key, false);
        let b = sealed_outcome(f.encrypted_supabase, key, true);
        lemma_failure_names_its_file(f.encrypted_stored_accounts, key, false);
        lemma_failure_names_its_file(f.encrypted_supabase, key, true);
        let pa = f.encrypted_stored_accounts.path;
        let pb = f.encrypted_supabase.path;
        if f.encrypted_stored_accounts.present && f.encrypted_supabase.present {
            let parts = seq![a->Err_0, b->Err_0];
            assert(parts.drop_last() =~= seq![a->Err_0]);
            assert(text::joined(parts.drop_last(), "; "@) == a->Err_0);
            assert(text::joined(parts, "; "@) == a->Err_0 + "; "@ + b->Err_0);
            let ra = a->Err_0.skip(pa.len() as int);
            let rb = b->Err_0.skip(pb.len() as int);
            assert(words =~= head + pa + (ra + "; "@ + b->Err_0));
            assert(words =~= (head + a->Err_0 + "; "@) + pb + rb);
        } else if f.encrypted_stored_accounts.present {
            let ra = a->Err_0.skip(pa.len() as int);
            assert(words =~= head + pa + ra);
        } else if f.encrypted_supabase.present {
            let rb = b->Err_0.skip(pb.len() as int);
            assert(words =~= head + pb + rb);
        }
        text::law_parts_are_held(words, pa);
        text::law_parts_are_held(words, pb);
    }
}

/// A failure begins with the path of its file.
proof fn lemma_failure_names_its_file(f: SealedView, key: Seq<u8>, is_supabase: bool)
    ensures
        sealed_outcome(f, key, is_supabase) matches Err(e) ==> e == f.path + e.skip(
            f.path.len() as int,
        ),
{
    if let Err(e) = sealed_outcome(f, key, is_supabase) {
        assert(e =~= f.path + e.skip(f.path.len() as int));
    }
}

/// The plaintext credentials that can renew a session are those of the stored
/// accounts if they have a refresh token, else those of the Supabase file if
/// they have one.
pub proof fn law_legacy_credentials_have_a_refresh_token(f: FilesView, c: CredentialsView)
    ensures
        c.refresh_token.len() > 0 && (f.stored_accounts.text matches Some(s)
            && auth::stored_credentials_in(s) == Some(c)) ==> legacy_credentials(Some(f)) == Ok::<
            CredentialsView,
            ErrorView,
        >(c),
        c.refresh_token.len() > 0 && !(f.stored_accounts.text matches Some(s) && (
        auth::stored_credentials_in(s) matches Some(d) && d.refresh_token.len() > 0)) && (
        f.supabase.text matches Some(s) && auth::supabase_credentials_in(s) == Some(c))
            ==> legacy_credentials(Some(f)) == Ok::<CredentialsView, ErrorView>(c),
        !(f.stored_accounts.text matches Some(s) && (auth::stored_credentials_in(s) matches Some(d)
            && d.refresh_token.len() > 0)) && !(f.supabase.text matches Some(s) && (
        auth::supabase_credentials_in(s) matches Some(d) && d.refresh_token.len() > 0)) ==> (
        legacy_credentials(Some(f)) matches Err(ErrorView::NoDesktopCredentials { tried }) && tried
            == seq![f.stored_accounts.path, f.supabase.path]),
{
}

/// A state names the files that are there, and no others.
pub proof fn law_state_names_the_files(f: FilesView)
    ensures
        ({
            let s = state_of(Some(f));
            &&& s.plaintext_files.contains("stored-accounts.json"@) <==> f.stored_accounts.present
            &&& s.plaintext_files.contains("supabase.json"@) <==> f.supabase.present
            &&& s.encrypted_files.contains("stored-accounts.json.enc"@)
                <==> f.encrypted_stored_accounts.present
            &&& s.encrypted_files.contains("supabase.json.enc"@) <==> f.encrypted_supabase.present
            &&& s.plaintext_files.len() <= 2 && s.encrypted_files.len() <= 2
            &&& s.storage_dek_present == f.dek_present
            &&& s.needs_cross_app_keychain <==> f.dek_present && (
            f.encrypted_stored_accounts.present || f.encrypted_supabase.present)
            &&& s.plaintext_refresh_token_present <==> (f.stored_accounts.text matches Some(t) && (
            auth::stored_credentials_in(t) matches Some(c) && c.refresh_token.len() > 0)) || (
            f.supabase.text matches Some(t) && (auth::supabase_credentials_in(t) matches Some(c)
                && c.refresh_token.len() > 0))
        }),
        state_of(None).plaintext_files.len() == 0,
        state_of(None).encrypted_files.len() == 0,
        !state_of(None).needs_cross_app_keychain,
        !state_of(None).storage_dek_present,
        !state_of(None).plaintext_refresh_token_present,
{
    reveal_strlit("stored-accounts.json");
    reveal_strlit("supabase.json");
    reveal_strlit("stored-accounts.json.enc");
    reveal_strlit("supabase.json.enc");
    let s = state_of(Some(f));
    assert("stored-accounts.json"@.len() != "supabase.json"@.len());
    assert("stored-accounts.json.enc"@.len() != "supabase.json.enc"@.len());
    if f.stored_accounts.present {
        assert(s.plaintext_files[0] == "stored-accounts.json"@);
    }
    if f.supabase.present {
        assert(s.plaintext_files.last() == "supabase.json"@);
    }
    if f.encrypted_stored_accounts.present {
        assert(s.encrypted_files[0] == "stored-accounts.json.enc"@);
    }
    if f.encrypted_supabase.present {
        assert(s.encrypted_files.last() == "supabase.json.enc"@);
    }
}

/// The files lie in the directory that the desktop app has on each platform.
pub proof fn law_files_lie_in_the_directory(name: Seq<char>)
    ensures
        file_path(Platform::MacOs, true, name) matches Some(p) && p.base == Base::Home && p.parts
            == seq!["Library"@, "Application Support"@, "Granola"@, name],
        file_path(Platform::Windows, true, name) matches Some(p) && p.base == Base::Config
            && p.parts == seq!["Granola"@, name],
        file_path(Platform::Other, true, name) matches Some(p) && p.base == Base::Home && p.parts
            == seq![".config"@, "granola"@, name],
        forall|platform: Platform| #[trigger] file_path(platform, false, name) is None,
{
}

/// A state as a document has each of its facts under its key.
pub proof fn law_state_has_its_keys(s: StateView)
    ensures
        state_json(s).get("plaintext_files"@) == Some(json::text_array(s.plaintext_files)),
        state_json(s).get("encrypted_files"@) == Some(json::text_array(s.encrypted_files)),
        state_json(s).get("storage_dek_present"@) == Some(JsonView::Bool(s.storage_dek_present)),
        state_json(s).get("plaintext_refresh_token_present"@) == Some(
            JsonView::Bool(s.plaintext_refresh_token_present),
        ),
        state_json(s).get("needs_cross_app_keychain"@) == Some(
            JsonView::Bool(s.needs_cross_app_keychain),
        ),
{
    let fields = state_json(s)->Object_0;
    reveal_strlit("plaintext_files");
    reveal_strlit("encrypted_files");
    reveal_strlit("storage_dek_present");
    reveal_strlit("plaintext_refresh_token_present");
    reveal_strlit("needs_cross_app_keychain");
    assert("plaintext_files"@[0] != "encrypted_files"@[0]);
    assert("plaintext_files"@.len() != "storage_dek_present"@.len());
    assert("plaintext_files"@.len() != "plaintext_refresh_token_present"@.len());
    assert("plaintext_files"@.len() != "needs_cross_app_keychain"@.len());
    assert("encrypted_files"@.len() != "storage_dek_present"@.len());
    assert("encrypted_files"@.len() != "plaintext_refresh_token_present"@.len());
    assert("encrypted_files"@.len() != "needs_cross_app_keychain"@.len());
    assert("storage_dek_present"@.len() != "plaintext_refresh_token_present"@.len());
    assert("storage_dek_present"@.len() != "needs_cross_app_keychain"@.len());
    assert("plaintext_refresh_token_present"@.len() != "needs_cross_app_keychain"@.len());
    json::law_first_field_counts(fields, "plaintext_files"@, 0);
    json::law_first_field_counts(fields, "encrypted_files"@, 1);
    json::law_first_field_counts(fields, "storage_dek_present"@, 2);
    json::law_first_field_counts(fields, "plaintext_refresh_token_present"@, 3);
    json::law_first_field_counts(fields, "needs_cross_app_keychain"@, 4);
}

/// A failure to open an encrypted file says what stood in the way: its bytes
/// could not be read, it could not be decrypted, or it does not hold
/// credentials.
pub proof fn law_sealed_failures_are_told(
    f: SealedView,
    key: Seq<u8>,
    is_supabase: bool,
    bytes: Seq<u8>,
    s: Seq<char>,
)
    ensures
        f.bytes == Err::<Seq<u8>, Seq<char>>(s) ==> sealed_outcome(f, key, is_supabase) == Err::<
            CredentialsView,
            Seq<char>,
        >(f.path + ": "@ + s),
        f.bytes == Ok::<Seq<u8>, Seq<char>>(bytes) && storage::storage_value(bytes, key) == Err::<
            Seq<char>,
            Seq<char>,
        >(s) ==> sealed_outcome(f, key, is_supabase) == Err::<CredentialsView, Seq<char>>(
            f.path + ": "@ + ("could not read encrypted Granola desktop credentials: "@ + s),
        ),
        f.bytes == Ok::<Seq<u8>, Seq<char>>(bytes) && storage::storage_value(bytes, key) == Ok::<
            Seq<char>,
            Seq<char>,
        >(s) && (if is_supabase {
            auth::supabase_credentials_in(s)
        } else {
            auth::stored_credentials_in(s)
        }) is None ==> sealed_outcome(f, key, is_supabase) == Err::<CredentialsView, Seq<char>>(
            f.path + " decrypted but did not match the expected credential shape"@,
        ),
{
}

/// Files are seen as they are.
pub proof fn law_files_are_seen(f: DesktopFiles)
    ensures
        f@.stored_accounts.text == json::seen(f.stored_accounts.text),
        f@.supabase.text == json::seen(f.supabase.text),
        f@.stored_accounts.present == f.stored_accounts.present,
        f@.supabase.present == f.supabase.present,
        f@.encrypted_stored_accounts.present == f.encrypted_stored_accounts.present,
        f@.encrypted_supabase.present == f.encrypted_supabase.present,
        f@.stored_accounts.path == f.stored_accounts.path@,
        f@.supabase.path == f.supabase.path@,
        f@.dek_present == f.dek_present,
        f.encrypted_stored_accounts.bytes matches Ok(b)
            ==> f@.encrypted_stored_accounts.bytes == Ok::<Seq<u8>, Seq<char>>(b@),
        f.encrypted_supabase.bytes matches Ok(b) ==> f@.encrypted_supabase.bytes == Ok::<
            Seq<u8>,
            Seq<char>,
        >(b@),
{
}

/// A key that was not asked for opens nothing; and without any files an import
/// finds nothing, whatever came of the key.
pub proof fn law_nothing_is_opened_without_a_key(f: FilesView, key: KeyView, platform: Platform)
    ensures
        (f.encrypted_stored_accounts.present || f.encrypted_supabase.present) && f.dek_present
            ==> imported(Platform::MacOs, Some(f), KeyView::NotAsked) == Err::<
            CredentialsView,
            ErrorView,
        >(ErrorView::EncryptedDesktopCredentials("the storage key was not asked for"@)),
        imported(platform, None, key) matches Err(ErrorView::NoDesktopCredentials { tried })
            && tried.len() == 0,
        legacy_credentials(None) matches Err(ErrorView::NoDesktopCredentials { tried })
            && tried.len() == 0,
        key_needed(platform, Some(f)) <==> platform == Platform::MacOs && f.dek_present && (
        f.encrypted_stored_accounts.present || f.encrypted_supabase.present),
        !key_needed(platform, None),
        has_encrypted(platform, Some(f)) <==> platform == Platform::MacOs && (
        f.encrypted_stored_accounts.present || f.encrypted_supabase.present),
{
}

} // verus!
