//! Reports on credentials: whether they are there, whether the service takes
//! them, and what would help.

use crate::api;
use crate::auth;
use crate::codes;
use crate::desktop;
use crate::desktop::{DesktopState, StateView};
use crate::json;
use crate::json::{add_field, no_fields, object, text_value, Json, JsonView};
use crate::session;
use crate::session::CredentialSource;
use crate::text;
use crate::text::{join, prefixed, to_decimal};
use vstd::prelude::*;

verus! {

/// What would help. Whoever shows a report puts it in words: a terminal names
/// commands, an agent's server names tools.
#[derive(Debug, Clone, Copy, PartialEq, Eq, Structural)]
pub enum RecoveryHint {
    /// All is well.
    Nothing,
    /// Import from the desktop app.
    Reimport,
    /// Sign in to the desktop app.
    SignInToDesktop,
    /// Approve the desktop app's own keychain item, which only a person can.
    ApproveKeychain,
    /// Let this program read the keychain.
    FixKeychainAccess,
    /// Try again later.
    Retry,
    /// Nothing on this machine helps any more.
    DeadEnd,
}

/// The name of a hint.
pub open spec fn hint_name(h: RecoveryHint) -> Seq<char> {
    match h {
        RecoveryHint::Nothing => "none"@,
        RecoveryHint::Reimport => "reimport"@,
        RecoveryHint::SignInToDesktop => "sign_in_to_desktop"@,
        RecoveryHint::ApproveKeychain => "approve_keychain"@,
        RecoveryHint::FixKeychainAccess => "fix_keychain_access"@,
        RecoveryHint::Retry => "retry"@,
        RecoveryHint::DeadEnd => "dead_end"@,
    }
}

impl RecoveryHint {
    /// The name of the hint.
    pub fn name(&self) -> (r: &'static str)
        ensures
            r@ == hint_name(*self),
    {
        match self {
            RecoveryHint::Nothing => "none",
            RecoveryHint::Reimport => "reimport",
            RecoveryHint::SignInToDesktop => "sign_in_to_desktop",
            RecoveryHint::ApproveKeychain => "approve_keychain",
            RecoveryHint::FixKeychainAccess => "fix_keychain_access",
            RecoveryHint::Retry => "retry",
            RecoveryHint::DeadEnd => "dead_end",
        }
    }
}

/// Whether credentials are there, and whether the service takes them. The
/// message says what happened, and never what to run.
#[derive(Debug, PartialEq, Eq)]
pub struct AuthReport {
    pub ok: bool,
    pub code: &'static str,
    pub message: String,
    pub credentials_present: bool,
    pub validated: bool,
    pub source: Option<CredentialSource>,
    pub desktop: DesktopState,
    pub recovery: RecoveryHint,
}

/// What an [`AuthReport`] says.
#[verifier::ext_equal]
pub struct ReportView {
    pub ok: bool,
    pub code: Seq<char>,
    pub message: Seq<char>,
    pub credentials_present: bool,
    pub validated: bool,
    pub source: Option<CredentialSource>,
    pub desktop: StateView,
    pub recovery: RecoveryHint,
}

impl View for AuthReport {
    type V = ReportView;

    open spec fn view(&self) -> ReportView {
        ReportView {
            ok: self.ok,
            code: self.code@,
            message: self.message@,
            credentials_present: self.credentials_present,
            validated: self.validated,
            source: self.source,
            desktop: self.desktop@,
            recovery: self.recovery,
        }
    }
}

/// A report of a failure.
pub open spec fn failure(
    code: Seq<char>,
    message: Seq<char>,
    recovery: RecoveryHint,
    desktop: StateView,
    credentials_present: bool,
) -> ReportView {
    ReportView {
        ok: false,
        code,
        message,
        credentials_present,
        validated: false,
        source: None,
        desktop,
        recovery,
    }
}

/// A report that all is well.
pub open spec fn success(
    message: Seq<char>,
    source: CredentialSource,
    desktop: StateView,
) -> ReportView {
    ReportView {
        ok: true,
        code: codes::OK@,
        message,
        credentials_present: true,
        validated: true,
        source: Some(source),
        desktop,
        recovery: RecoveryHint::Nothing,
    }
}

impl AuthReport {
    /// A report of a failure.
    fn failure(
        code: &'static str,
        message: String,
        recovery: RecoveryHint,
        desktop: DesktopState,
        credentials_present: bool,
    ) -> (r: AuthReport)
        ensures
            r@ == failure(code@, message@, recovery, desktop@, credentials_present),
    {
        AuthReport {
            ok: false,
            code,
            message,
            credentials_present,
            validated: false,
            source: None,
            desktop,
            recovery,
        }
    }

    /// A report that all is well.
    fn success(message: String, source: CredentialSource, desktop: DesktopState) -> (r: AuthReport)
        ensures
            r@ == success(message@, source, desktop@),
    {
        AuthReport {
            ok: true,
            code: codes::OK,
            message,
            credentials_present: true,
            validated: true,
            source: Some(source),
            desktop,
            recovery: RecoveryHint::Nothing,
        }
    }
}

// ---- Hints ------------------------------------------------------------------

/// What would help where there are no credentials that work, by what is on
/// disk.
pub open spec fn import_hint(desktop: StateView) -> RecoveryHint {
    if desktop.needs_cross_app_keychain {
        RecoveryHint::ApproveKeychain
    } else if desktop.plaintext_refresh_token_present || desktop.plaintext_files.len() > 0 {
        RecoveryHint::Reimport
    } else {
        RecoveryHint::SignInToDesktop
    }
}

/// What would help where there are no credentials that work, by what is on
/// disk.
pub fn reimport_hint(desktop: &DesktopState) -> (r: RecoveryHint)
    ensures
        r == import_hint(desktop@),
{
    assert(desktop@.plaintext_files.len() == desktop.plaintext_files@.len());
    if desktop.needs_cross_app_keychain {
        RecoveryHint::ApproveKeychain
    } else if desktop.plaintext_refresh_token_present || desktop.plaintext_files.len() > 0 {
        RecoveryHint::Reimport
    } else {
        RecoveryHint::SignInToDesktop
    }
}

// ---- Status -----------------------------------------------------------------

/// What the keychain holds.
pub enum Stored {
    /// Nothing.
    Missing,
    /// It could not be read.
    Unreadable(auth::Error),
    /// Credentials.
    Present,
}

/// What [`Stored`] says.
pub enum StoredView {
    Missing,
    Unreadable(auth::ErrorView),
    Present,
}

impl View for Stored {
    type V = StoredView;

    open spec fn view(&self) -> StoredView {
        match self {
            Stored::Missing => StoredView::Missing,
            Stored::Unreadable(e) => StoredView::Unreadable(e@),
            Stored::Present => StoredView::Present,
        }
    }
}

/// The report on stored credentials, given what came of trying them: an error,
/// or none.
pub open spec fn status_report(
    desktop: StateView,
    stored: StoredView,
    trial: Option<api::ErrorView>,
) -> ReportView {
    match stored {
        StoredView::Missing => failure(
            codes::UNAUTHENTICATED@,
            "No Granola credentials are stored in the OS keychain."@,
            import_hint(desktop),
            desktop,
            false,
        ),
        StoredView::Unreadable(e) => failure(
            codes::KEYCHAIN_UNAVAILABLE@,
            "The OS keychain could not be read: "@ + auth::error_message(e),
            RecoveryHint::FixKeychainAccess,
            desktop,
            false,
        ),
        StoredView::Present => match trial {
            None => success(
                "Stored credentials are valid."@,
                CredentialSource::Keychain,
                desktop,
            ),
            Some(e) => if api::session_over(e) {
                failure(
                    codes::STALE_CREDENTIALS@,
                    "Stored credentials were rejected by Granola: "@ + api::error_message(e),
                    import_hint(desktop),
                    desktop,
                    true,
                )
            } else {
                failure(
                    codes::API_UNREACHABLE@,
                    "Could not reach Granola to validate credentials: "@ + api::error_message(e),
                    RecoveryHint::Retry,
                    desktop,
                    true,
                )
            },
        },
    }
}

/// The report on stored credentials. They are to be tried only where they are
/// there; nothing is imported.
pub fn auth_report(desktop: DesktopState, stored: Stored, trial: Option<api::Error>) -> (r:
    AuthReport)
    ensures
        r@ == status_report(desktop@, stored@, json::seen(trial)),
{
    let hint = reimport_hint(&desktop);
    match stored {
        Stored::Missing => AuthReport::failure(
            codes::UNAUTHENTICATED,
            "No Granola credentials are stored in the OS keychain.".to_owned(),
            hint,
            desktop,
            false,
        ),
        Stored::Unreadable(e) => AuthReport::failure(
            codes::KEYCHAIN_UNAVAILABLE,
            prefixed("The OS keychain could not be read: ", e.message().as_str()),
            RecoveryHint::FixKeychainAccess,
            desktop,
            false,
        ),
        Stored::Present => match trial {
            None => AuthReport::success(
                "Stored credentials are valid.".to_owned(),
                CredentialSource::Keychain,
                desktop,
            ),
            Some(e) => if e.needs_reauth() {
                AuthReport::failure(
                    codes::STALE_CREDENTIALS,
                    prefixed("Stored credentials were rejected by Granola: ", e.message().as_str()),
                    hint,
                    desktop,
                    true,
                )
            } else {
                AuthReport::failure(
                    codes::API_UNREACHABLE,
                    prefixed(
                        "Could not reach Granola to validate credentials: ",
                        e.message().as_str(),
                    ),
                    RecoveryHint::Retry,
                    desktop,
                    true,
                )
            },
        },
    }
}

// ---- Login ------------------------------------------------------------------

/// Whether the desktop app has moved its key away: there are encrypted files,
/// and no wrapped key.
pub open spec fn key_moved(desktop: StateView) -> bool {
    desktop.encrypted_files.len() > 0 && !desktop.storage_dek_present
}

/// The report on an import that failed.
pub open spec fn import_report(e: auth::ErrorView, desktop: StateView) -> ReportView {
    match e {
        auth::ErrorView::NoDesktopCredentials { tried } => if key_moved(desktop) {
            failure(
                codes::NO_BOOTSTRAP_CREDENTIALS@,
                "Granola has moved its desktop encryption key into app-only Keychain storage and no leftover plaintext refresh token remains to bootstrap from. Looked in: "@
                    + text::joined(tried, ", "@) + "."@,
                RecoveryHint::DeadEnd,
                desktop,
                false,
            )
        } else {
            failure(
                codes::NO_DESKTOP_CREDENTIALS@,
                "No Granola desktop credentials were found. Looked in: "@ + text::joined(
                    tried,
                    ", "@,
                ) + ". Is the Granola desktop app installed and signed in?"@,
                RecoveryHint::SignInToDesktop,
                desktop,
                false,
            )
        },
        auth::ErrorView::RefreshRejected { status } => failure(
            codes::BOOTSTRAP_REFRESH_REJECTED@,
            "Granola rejected the leftover desktop refresh token (HTTP "@ + text::decimal(
                status as nat,
            )
                + "). This install can no longer bootstrap credentials from local desktop state."@,
            RecoveryHint::DeadEnd,
            desktop,
            false,
        ),
        auth::ErrorView::Keyring(c) => failure(
            codes::KEYCHAIN_UNAVAILABLE@,
            "The OS keychain could not be used: "@ + c.text,
            RecoveryHint::FixKeychainAccess,
            desktop,
            false,
        ),
        auth::ErrorView::Http(c) => failure(
            codes::API_UNREACHABLE@,
            "Could not reach Granola to exchange the desktop refresh token: "@ + c.text,
            RecoveryHint::Retry,
            desktop,
            false,
        ),
        other => failure(
            codes::NO_DESKTOP_CREDENTIALS@,
            "Could not import Granola desktop credentials: "@ + auth::error_message(other),
            RecoveryHint::SignInToDesktop,
            desktop,
            false,
        ),
    }
}

/// The report on a login, given what came of the import and, where it
/// succeeded, of trying the credentials.
pub open spec fn login_report(
    desktop: StateView,
    imported: Result<CredentialSource, auth::ErrorView>,
    trial: Option<api::ErrorView>,
) -> ReportView {
    match imported {
        Err(e) => import_report(e, desktop),
        Ok(source) => match trial {
            None => success(
                "Credentials imported from the Granola desktop app and validated."@,
                source,
                desktop,
            ),
            Some(e) => if api::session_over(e) {
                failure(
                    codes::STALE_CREDENTIALS@,
                    "Credentials were imported but Granola rejected them: "@ + api::error_message(e)
                        + ". The Granola desktop app's own session is probably stale."@,
                    RecoveryHint::SignInToDesktop,
                    desktop,
                    true,
                )
            } else {
                failure(
                    codes::API_UNREACHABLE@,
                    "Credentials were imported but Granola could not be reached: "@
                        + api::error_message(e),
                    RecoveryHint::Retry,
                    desktop,
                    true,
                )
            },
        },
    }
}

/// The report on an import that failed. Two failures look alike but for the
/// state of the desktop's files: where its key has moved away, signing in does
/// not help.
pub fn import_failure(e: auth::Error, desktop: DesktopState) -> (r: AuthReport)
    ensures
        r@ == import_report(e@, desktop@),
{
    assert(desktop@.encrypted_files.len() == desktop.encrypted_files@.len());
    let moved = desktop.encrypted_files.len() > 0 && !desktop.storage_dek_present;
    match e {
        auth::Error::NoDesktopCredentials { tried } => if moved {
            let mut out = prefixed(
                "Granola has moved its desktop encryption key into app-only Keychain storage and no leftover plaintext refresh token remains to bootstrap from. Looked in: ",
                join(&tried, ", ").as_str(),
            );
            out.append(".");
            AuthReport::failure(
                codes::NO_BOOTSTRAP_CREDENTIALS,
                out,
                RecoveryHint::DeadEnd,
                desktop,
                false,
            )
        } else {
            let mut out = prefixed(
                "No Granola desktop credentials were found. Looked in: ",
                join(&tried, ", ").as_str(),
            );
            out.append(". Is the Granola desktop app installed and signed in?");
            AuthReport::failure(
                codes::NO_DESKTOP_CREDENTIALS,
                out,
                RecoveryHint::SignInToDesktop,
                desktop,
                false,
            )
        },
        auth::Error::RefreshRejected { status } => {
            let mut out = prefixed(
                "Granola rejected the leftover desktop refresh token (HTTP ",
                to_decimal(status as u64).as_str(),
            );
            out.append(
                "). This install can no longer bootstrap credentials from local desktop state.",
            );
            AuthReport::failure(
                codes::BOOTSTRAP_REFRESH_REJECTED,
                out,
                RecoveryHint::DeadEnd,
                desktop,
                false,
            )
        },
        auth::Error::Keyring(c) => AuthReport::failure(
            codes::KEYCHAIN_UNAVAILABLE,
            prefixed("The OS keychain could not be used: ", c.text.as_str()),
            RecoveryHint::FixKeychainAccess,
            desktop,
            false,
        ),
        auth::Error::Http(c) => AuthReport::failure(
            codes::API_UNREACHABLE,
            prefixed(
                "Could not reach Granola to exchange the desktop refresh token: ",
                c.text.as_str(),
            ),
            RecoveryHint::Retry,
            desktop,
            false,
        ),
        other => AuthReport::failure(
            codes::NO_DESKTOP_CREDENTIALS,
            prefixed(
                "Could not import Granola desktop credentials: ",
                other.message().as_str(),
            ),
            RecoveryHint::SignInToDesktop,
            desktop,
            false,
        ),
    }
}

/// The report on a login. The credentials are to be tried only where the import
/// succeeded, and by a call that imports nothing itself.
pub fn authenticate(
    desktop: DesktopState,
    imported: Result<CredentialSource, auth::Error>,
    trial: Option<api::Error>,
) -> (r: AuthReport)
    ensures
        r@ == login_report(
            desktop@,
            match imported {
                Ok(s) => Ok(s),
                Err(e) => Err(e@),
            },
            json::seen(trial),
        ),
{
    match imported {
        Err(e) => import_failure(e, desktop),
        Ok(source) => match trial {
            None => AuthReport::success(
                "Credentials imported from the Granola desktop app and validated.".to_owned(),
                source,
                desktop,
            ),
            Some(e) => if e.needs_reauth() {
                let mut out = prefixed(
                    "Credentials were imported but Granola rejected them: ",
                    e.message().as_str(),
                );
                out.append(". The Granola desktop app's own session is probably stale.");
                AuthReport::failure(
                    codes::STALE_CREDENTIALS,
                    out,
                    RecoveryHint::SignInToDesktop,
                    desktop,
                    true,
                )
            } else {
                AuthReport::failure(
                    codes::API_UNREACHABLE,
                    prefixed(
                        "Credentials were imported but Granola could not be reached: ",
                        e.message().as_str(),
                    ),
                    RecoveryHint::Retry,
                    desktop,
                    true,
                )
            },
        },
    }
}

/// What is said of an import that did not come to an end.
pub open spec fn timed_out_message() -> Seq<char> {
    "Importing credentials did not finish in time. macOS is most likely waiting on a Keychain dialog to release Granola's encryption key, which needs a person at the machine to approve it."@
}

/// The report on an import that was given up because it took too long.
pub fn import_timed_out(desktop: DesktopState, credentials_present: bool) -> (r: AuthReport)
    ensures
        r@ == failure(
            codes::NEEDS_KEYCHAIN_APPROVAL@,
            timed_out_message(),
            RecoveryHint::ApproveKeychain,
            desktop@,
            credentials_present,
        ),
{
    AuthReport::failure(
        codes::NEEDS_KEYCHAIN_APPROVAL,
        "Importing credentials did not finish in time. macOS is most likely waiting on a Keychain dialog to release Granola's encryption key, which needs a person at the machine to approve it.".to_owned(),
        RecoveryHint::ApproveKeychain,
        desktop,
        credentials_present,
    )
}

// ---- JSON -------------------------------------------------------------------

/// A report as a JSON document.
pub open spec fn report_json(r: ReportView) -> JsonView {
    JsonView::Object(
        seq![
            ("ok"@, JsonView::Bool(r.ok)),
            ("code"@, JsonView::Text(r.code)),
            ("message"@, JsonView::Text(r.message)),
            ("credentials_present"@, JsonView::Bool(r.credentials_present)),
            ("validated"@, JsonView::Bool(r.validated)),
            (
                "source"@,
                match r.source {
                    Some(s) => JsonView::Text(session::source_name(s)),
                    None => JsonView::Null,
                },
            ),
            ("desktop"@, desktop::state_json(r.desktop)),
            ("recovery"@, JsonView::Text(hint_name(r.recovery))),
        ],
    )
}

impl AuthReport {
    /// The report as the fields of a JSON document.
    pub fn to_fields(&self) -> (r: Vec<(String, Json)>)
        ensures
            json::field_views(r@) == report_json(self@)->Object_0,
    {
        let source = match &self.source {
            Some(s) => text_value(s.name()),
            None => Json::Null,
        };
        let mut fields = no_fields();
        add_field(&mut fields, "ok", Json::Bool(self.ok));
        add_field(&mut fields, "code", text_value(self.code));
        add_field(&mut fields, "message", text_value(self.message.as_str()));
        add_field(&mut fields, "credentials_present", Json::Bool(self.credentials_present));
        add_field(&mut fields, "validated", Json::Bool(self.validated));
        add_field(&mut fields, "source", source);
        add_field(&mut fields, "desktop", self.desktop.to_json());
        add_field(&mut fields, "recovery", text_value(self.recovery.name()));
        assert(json::field_views(fields@) =~= report_json(self@)->Object_0);
        fields
    }

    /// The report as a JSON document.
    pub fn to_json(&self) -> (r: Json)
        ensures
            r@ == report_json(self@),
    {
        object(self.to_fields())
    }
}

// ---- What holds of reports --------------------------------------------------

/// Whether a report is of one piece: all is well exactly if the credentials
/// were validated, and then nothing is to be done.
pub open spec fn coherent(r: ReportView) -> bool {
    &&& r.ok == r.validated
    &&& r.ok <==> r.code == codes::OK@
    &&& r.ok <==> r.recovery == RecoveryHint::Nothing
    &&& r.ok <==> r.source is Some
    &&& r.validated ==> r.credentials_present
}

/// Every report is of one piece.
pub proof fn law_reports_are_coherent(
    desktop: StateView,
    stored: StoredView,
    imported: Result<CredentialSource, auth::ErrorView>,
    trial: Option<api::ErrorView>,
    present: bool,
)
    ensures
        coherent(status_report(desktop, stored, trial)),
        coherent(login_report(desktop, imported, trial)),
        coherent(
            failure(
                codes::NEEDS_KEYCHAIN_APPROVAL@,
                timed_out_message(),
                RecoveryHint::ApproveKeychain,
                desktop,
                present,
            ),
        ),
        status_report(desktop, stored, trial).ok <==> stored is Present && trial is None,
        login_report(desktop, imported, trial).ok <==> imported is Ok && trial is None,
{
    reveal_strlit("ok");
    assert(codes::OK@.len() == 2);
    reveal_strlit("unauthenticated");
    assert(codes::UNAUTHENTICATED@.len() > 2);
    reveal_strlit("stale_credentials");
    assert(codes::STALE_CREDENTIALS@.len() > 2);
    reveal_strlit("no_desktop_credentials");
    assert(codes::NO_DESKTOP_CREDENTIALS@.len() > 2);
    reveal_strlit("no_bootstrap_credentials");
    assert(codes::NO_BOOTSTRAP_CREDENTIALS@.len() > 2);
    reveal_strlit("bootstrap_refresh_rejected");
    assert(codes::BOOTSTRAP_REFRESH_REJECTED@.len() > 2);
    reveal_strlit("needs_keychain_approval");
    assert(codes::NEEDS_KEYCHAIN_APPROVAL@.len() > 2);
    reveal_strlit("keychain_unavailable");
    assert(codes::KEYCHAIN_UNAVAILABLE@.len() > 2);
    reveal_strlit("api_unreachable");
    assert(codes::API_UNREACHABLE@.len() > 2);
}

/// A report tells a dead end from a missing sign-in: without credentials to
/// import, it is a dead end exactly where the desktop's key has moved away.
pub proof fn law_dead_end_is_told_apart(tried: Seq<Seq<char>>, desktop: StateView)
    ensures
        import_report(auth::ErrorView::NoDesktopCredentials { tried }, desktop).recovery == (
        if key_moved(desktop) {
            RecoveryHint::DeadEnd
        } else {
            RecoveryHint::SignInToDesktop
        }),
{
}

/// What helps is read off the desktop's state: a person's approval where an
/// import needs the desktop app's own keychain item; an import where a plaintext
/// file is there; else signing in.
pub proof fn law_help_follows_the_state(desktop: StateView)
    ensures
        desktop.needs_cross_app_keychain ==> import_hint(desktop) == RecoveryHint::ApproveKeychain,
        !desktop.needs_cross_app_keychain && (desktop.plaintext_refresh_token_present
            || desktop.plaintext_files.len() > 0) ==> import_hint(desktop)
            == RecoveryHint::Reimport,
        !desktop.needs_cross_app_keychain && !desktop.plaintext_refresh_token_present
            && desktop.plaintext_files.len() == 0 ==> import_hint(desktop)
            == RecoveryHint::SignInToDesktop,
{
}

/// A status tells apart: no credentials, a keychain that cannot be read,
/// credentials that were rejected, and a service that cannot be reached; and
/// says what helps.
pub proof fn law_status_tells_apart(desktop: StateView, e: api::ErrorView, f: auth::ErrorView)
    ensures
        ({
            let r = status_report(desktop, StoredView::Missing, None);
            r.code == "unauthenticated"@ && !r.credentials_present && r.recovery == import_hint(
                desktop,
            ) && r.desktop == desktop
        }),
        ({
            let r = status_report(desktop, StoredView::Unreadable(f), None);
            r.code == "keychain_unavailable"@ && !r.credentials_present && r.recovery
                == RecoveryHint::FixKeychainAccess && r.desktop == desktop && text::holds(
                r.message,
                auth::error_message(f),
            )
        }),
        ({
            let r = status_report(desktop, StoredView::Present, None);
            r.ok && r.code == "ok"@ && r.credentials_present && r.validated && r.source == Some(
                CredentialSource::Keychain,
            ) && r.recovery == RecoveryHint::Nothing && r.desktop == desktop
        }),
        ({
            let r = status_report(desktop, StoredView::Present, Some(e));
            r.credentials_present && r.desktop == desktop && text::holds(
                r.message,
                api::error_message(e),
            ) && (if api::session_over(e) {
                r.code == "stale_credentials"@ && r.recovery == import_hint(desktop)
            } else {
                r.code == "api_unreachable"@ && r.recovery == RecoveryHint::Retry
            })
        }),
{
    let a = status_report(desktop, StoredView::Unreadable(f), None).message;
    assert(a =~= "The OS keychain could not be read: "@ + auth::error_message(f) + Seq::empty());
    text::law_parts_are_held(a, auth::error_message(f));
    let b = status_report(desktop, StoredView::Present, Some(e)).message;
    let words = api::error_message(e);
    if api::session_over(e) {
        assert(b =~= "Stored credentials were rejected by Granola: "@ + words + Seq::empty());
    } else {
        assert(b =~= "Could not reach Granola to validate credentials: "@ + words + Seq::empty());
    }
    text::law_parts_are_held(b, words);
}

/// A login that imported credentials tells where they came from if they work;
/// else whether they were rejected or the service could not be reached.
pub proof fn law_login_tells_apart(
    desktop: StateView,
    source: CredentialSource,
    e: api::ErrorView,
)
    ensures
        ({
            let r = login_report(desktop, Ok(source), None);
            r.ok && r.code == "ok"@ && r.credentials_present && r.validated && r.source == Some(
                source,
            ) && r.recovery == RecoveryHint::Nothing && r.desktop == desktop
        }),
        ({
            let r = login_report(desktop, Ok(source), Some(e));
            r.credentials_present && !r.validated && r.desktop == desktop && text::holds(
                r.message,
                api::error_message(e),
            ) && (if api::session_over(e) {
                r.code == "stale_credentials"@ && r.recovery == RecoveryHint::SignInToDesktop
            } else {
                r.code == "api_unreachable"@ && r.recovery == RecoveryHint::Retry
            })
        }),
{
    let b = login_report(desktop, Ok(source), Some(e)).message;
    let words = api::error_message(e);
    if api::session_over(e) {
        assert(b =~= "Credentials were imported but Granola rejected them: "@ + words
            + ". The Granola desktop app's own session is probably stale."@);
    } else {
        assert(b =~= "Credentials were imported but Granola could not be reached: "@ + words
            + Seq::empty());
    }
    text::law_parts_are_held(b, words);
}

/// A failed import tells apart: no files, a key that has moved away with nothing
/// left, a refresh token that was rejected, a keychain that cannot be used, and a
/// service that cannot be reached.
pub proof fn law_failed_import_tells_apart(
    desktop: StateView,
    tried: Seq<Seq<char>>,
    status: u16,
    c: auth::CauseView,
)
    ensures
        ({
            let r = login_report(desktop, Err(auth::ErrorView::NoDesktopCredentials { tried }), None);
            !r.ok && !r.credentials_present && r.desktop == desktop && text::holds(
                r.message,
                text::joined(tried, ", "@),
            ) && (if desktop.encrypted_files.len() > 0 && !desktop.storage_dek_present {
                r.code == "no_bootstrap_credentials"@ && r.recovery == RecoveryHint::DeadEnd
            } else {
                r.code == "no_desktop_credentials"@ && r.recovery == RecoveryHint::SignInToDesktop
            })
        }),
        ({
            let r = login_report(desktop, Err(auth::ErrorView::RefreshRejected { status }), None);
            !r.ok && r.code == "bootstrap_refresh_rejected"@ && r.recovery == RecoveryHint::DeadEnd
                && text::holds(r.message, text::decimal(status as nat))
        }),
        ({
            let r = login_report(desktop, Err(auth::ErrorView::Keyring(c)), None);
            !r.ok && r.code == "keychain_unavailable"@ && r.recovery
                == RecoveryHint::FixKeychainAccess && text::holds(r.message, c.text)
        }),
        ({
            let r = login_report(desktop, Err(auth::ErrorView::Http(c)), None);
            !r.ok && r.code == "api_unreachable"@ && r.recovery == RecoveryHint::Retry
                && text::holds(r.message, c.text)
        }),
        ({
            let r = login_report(desktop, Err(auth::ErrorView::DesktopKeyMigrated), None);
            !r.ok && r.code == "no_desktop_credentials"@ && r.recovery
                == RecoveryHint::SignInToDesktop
        }),
{
    let list = text::joined(tried, ", "@);
    let a = import_report(auth::ErrorView::NoDesktopCredentials { tried }, desktop).message;
    if key_moved(desktop) {
        assert(a
            =~= "Granola has moved its desktop encryption key into app-only Keychain storage and no leftover plaintext refresh token remains to bootstrap from. Looked in: "@
            + list + "."@);
    } else {
        assert(a =~= "No Granola desktop credentials were found. Looked in: "@ + list
            + ". Is the Granola desktop app installed and signed in?"@);
    }
    text::law_parts_are_held(a, list);
    let b = import_report(auth::ErrorView::RefreshRejected { status }, desktop).message;
    assert(b =~= "Granola rejected the leftover desktop refresh token (HTTP "@ + text::decimal(
        status as nat,
    ) + "). This install can no longer bootstrap credentials from local desktop state."@);
    text::law_parts_are_held(b, text::decimal(status as nat));
    let d = import_report(auth::ErrorView::Keyring(c), desktop).message;
    assert(d =~= "The OS keychain could not be used: "@ + c.text + Seq::empty());
    text::law_parts_are_held(d, c.text);
    let g = import_report(auth::ErrorView::Http(c), desktop).message;
    assert(g =~= "Could not reach Granola to exchange the desktop refresh token: "@ + c.text
        + Seq::empty());
    text::law_parts_are_held(g, c.text);
}

/// A report as a document has each of its facts under its key.
pub proof fn law_report_has_its_keys(r: ReportView)
    ensures
        report_json(r).get("ok"@) == Some(JsonView::Bool(r.ok)),
        report_json(r).get("code"@) == Some(JsonView::Text(r.code)),
        report_json(r).get("message"@) == Some(JsonView::Text(r.message)),
        report_json(r).get("credentials_present"@) == Some(JsonView::Bool(r.credentials_present)),
        report_json(r).get("validated"@) == Some(JsonView::Bool(r.validated)),
        report_json(r).get("desktop"@) == Some(desktop::state_json(r.desktop)),
        r.source is None ==> report_json(r).get("source"@) == Some(JsonView::Null),
        r.source == Some(CredentialSource::Keychain) ==> report_json(r).text("source"@) == Some(
            "keychain"@,
        ),
        r.source == Some(CredentialSource::DesktopImport) ==> report_json(r).text("source"@)
            == Some("desktop_import"@),
        r.source == Some(CredentialSource::Bootstrap) ==> report_json(r).text("source"@) == Some(
            "bootstrap"@,
        ),
        r.recovery == RecoveryHint::Nothing ==> report_json(r).text("recovery"@) == Some("none"@),
        r.recovery == RecoveryHint::Reimport ==> report_json(r).text("recovery"@) == Some(
            "reimport"@,
        ),
        r.recovery == RecoveryHint::SignInToDesktop ==> report_json(r).text("recovery"@) == Some(
            "sign_in_to_desktop"@,
        ),
        r.recovery == RecoveryHint::ApproveKeychain ==> report_json(r).text("recovery"@) == Some(
            "approve_keychain"@,
        ),
        r.recovery == RecoveryHint::FixKeychainAccess ==> report_json(r).text("recovery"@) == Some(
            "fix_keychain_access"@,
        ),
        r.recovery == RecoveryHint::Retry ==> report_json(r).text("recovery"@) == Some("retry"@),
        r.recovery == RecoveryHint::DeadEnd ==> report_json(r).text("recovery"@) == Some(
            "dead_end"@,
        ),
{
    let fields = report_json(r)->Object_0;
    reveal_strlit("ok");
    reveal_strlit("code");
    reveal_strlit("message");
    reveal_strlit("credentials_present");
    reveal_strlit("validated");
    reveal_strlit("source");
    reveal_strlit("desktop");
    reveal_strlit("recovery");
    assert("ok"@.len() != "code"@.len());
    assert("ok"@.len() != "message"@.len());
    assert("ok"@.len() != "credentials_present"@.len());
    assert("ok"@.len() != "validated"@.len());
    assert("ok"@.len() != "source"@.len());
    assert("ok"@.len() != "desktop"@.len());
    assert("ok"@.len() != "recovery"@.len());
    assert("code"@.len() != "message"@.len());
    assert("code"@.len() != "credentials_present"@.len());
    assert("code"@.len() != "validated"@.len());
    assert("code"@.len() != "source"@.len());
    assert("code"@.len() != "desktop"@.len());
    assert("code"@.len() != "recovery"@.len());
    assert("message"@.len() != "credentials_present"@.len());
    assert("message"@.len() != "validated"@.len());
    assert("message"@.len() != "source"@.len());
    assert("message"@[0] != "desktop"@[0]);
    assert("message"@.len() != "recovery"@.len());
    assert("credentials_present"@.len() != "validated"@.len());
    assert("credentials_present"@.len() != "source"@.len());
    assert("credentials_present"@.len() != "desktop"@.len());
    assert("credentials_present"@.len() != "recovery"@.len());
    assert("validated"@.len() != "source"@.len());
    assert("validated"@.len() != "desktop"@.len());
    assert("validated"@.len() != "recovery"@.len());
    assert("source"@.len() != "desktop"@.len());
    assert("source"@.len() != "recovery"@.len());
    assert("desktop"@.len() != "recovery"@.len());
    json::law_first_field_counts(fields, "ok"@, 0);
    json::law_first_field_counts(fields, "code"@, 1);
    json::law_first_field_counts(fields, "message"@, 2);
    json::law_first_field_counts(fields, "credentials_present"@, 3);
    json::law_first_field_counts(fields, "validated"@, 4);
    json::law_first_field_counts(fields, "source"@, 5);
    json::law_first_field_counts(fields, "desktop"@, 6);
    json::law_first_field_counts(fields, "recovery"@, 7);
}

/// Any other failure of an import is told in its own words, and sent to the
/// desktop app. A trial counts only where there are credentials.
pub proof fn law_other_failures_are_told(
    desktop: StateView,
    e: auth::ErrorView,
    f: auth::ErrorView,
    a: Option<api::ErrorView>,
    b: Option<api::ErrorView>,
)
    requires
        !(e is NoDesktopCredentials),
        !(e is RefreshRejected),
        !(e is Keyring),
        !(e is Http),
    ensures
        ({
            let r = login_report(desktop, Err(e), a);
            !r.ok && !r.credentials_present && r.code == "no_desktop_credentials"@ && r.recovery
                == RecoveryHint::SignInToDesktop && r.desktop == desktop && r.message
                == "Could not import Granola desktop credentials: "@ + auth::error_message(e)
        }),
        login_report(desktop, Err(f), a) == login_report(desktop, Err(f), b),
        status_report(desktop, StoredView::Missing, a) == status_report(
            desktop,
            StoredView::Missing,
            b,
        ),
        status_report(desktop, StoredView::Unreadable(f), a) == status_report(
            desktop,
            StoredView::Unreadable(f),
            b,
        ),
        import_report(f, desktop) == login_report(desktop, Err(f), a),
{
}

} // verus!
