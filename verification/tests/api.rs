//! Requests, retries, the flow of a call, and reports.

use granola::api::{post, Client, Error, Reply, Sending, MAX_RETRIES};
use granola::auth;
use granola::auth::{Cause, Credentials};
use granola::codes;
use granola::desktop::DesktopState;
use granola::flow::{
    should_reimport, validation, with_credentials, with_token_refresh, ClientCache, Event, Flow,
    Recovery, Wait,
};
use granola::json::{Json, Number};
use granola::report::{
    auth_report, authenticate, import_failure, import_timed_out, reimport_hint, RecoveryHint,
    Stored,
};
use granola::session::CredentialSource;
use serde_json::Value;

fn value(j: &Json) -> Value {
    match j {
        Json::Null => Value::Null,
        Json::Bool(b) => Value::Bool(*b),
        Json::Number(Number::Unsigned(n)) => Value::from(*n),
        Json::Number(Number::Negative(n)) => Value::from(*n),
        Json::Number(Number::Decimal(s)) => serde_json::from_str(s).expect("a number"),
        Json::Text(s) => Value::String(s.clone()),
        Json::Array(v) => Value::Array(v.iter().map(value).collect()),
        Json::Object(v) => {
            let mut m = serde_json::Map::new();
            for (k, x) in v {
                m.insert(k.clone(), value(x));
            }
            Value::Object(m)
        }
    }
}

fn desktop(
    plaintext: &[&str],
    encrypted: &[&str],
    dek: bool,
    refresh_token: bool,
) -> DesktopState {
    DesktopState {
        plaintext_files: plaintext.iter().map(|s| s.to_string()).collect(),
        encrypted_files: encrypted.iter().map(|s| s.to_string()).collect(),
        storage_dek_present: dek,
        plaintext_refresh_token_present: refresh_token,
        needs_cross_app_keychain: !encrypted.is_empty() && dek,
    }
}

fn cause(text: &str) -> Cause {
    Cause::new(text.to_string())
}

fn creds(access_token: &str) -> Credentials {
    Credentials {
        refresh_token: "RT".to_string(),
        access_token: access_token.to_string(),
        client_id: "c".to_string(),
    }
}

fn unauthorized() -> Error {
    Error::Http { status: 401, message: "unauthorized".to_string() }
}

fn cache_of(token: &str) -> ClientCache {
    let mut cache = ClientCache::new();
    cache.cache_client(Client::new(token.to_string()));
    cache
}

#[test]
fn refresh_only_never_escalates_to_a_reimport() {
    let dead = auth::Error::RefreshRejected { status: 401 };
    assert!(!should_reimport(Recovery::RefreshOnly, &dead));
    assert!(should_reimport(Recovery::RefreshThenReimport, &dead));

    assert!(!should_reimport(Recovery::RefreshOnly, &auth::Error::NoCredentials));
    assert!(should_reimport(Recovery::RefreshThenReimport, &auth::Error::NoCredentials));
}

#[test]
fn a_transient_refresh_failure_does_not_trigger_a_reimport() {
    for e in [
        auth::Error::NoHomeDir,
        auth::Error::NoDesktopCredentials { tried: Vec::new() },
    ] {
        assert!(
            !should_reimport(Recovery::RefreshThenReimport, &e),
            "should not reimport for {}",
            e.message()
        );
    }
}

#[test]
fn only_a_dead_chain_counts_as_needing_reauth() {
    assert!(Error::Unauthenticated.needs_reauth());
    assert!(Error::NeedsKeychainApproval.needs_reauth());
    assert!(Error::Http { status: 401, message: String::new() }.needs_reauth());
    assert!(Error::Auth(auth::Error::RefreshRejected { status: 401 }).needs_reauth());

    assert!(!Error::Transport("dns".into()).needs_reauth());
    assert!(!Error::Http { status: 500, message: String::new() }.needs_reauth());
}

#[test]
fn a_failed_import_still_counts_as_an_auth_failure_worth_hinting() {
    let cold_start = Error::Auth(auth::Error::NoDesktopCredentials { tried: Vec::new() });
    assert!(
        !cold_start.needs_reauth(),
        "a failed import is not a dead stored chain"
    );
    assert!(
        cold_start.is_auth_failure(),
        "but the caller must still be told how to recover"
    );

    assert!(Error::Unauthenticated.is_auth_failure());
    assert!(Error::NeedsKeychainApproval.is_auth_failure());

    assert!(!Error::Transport("dns".into()).is_auth_failure());
    assert!(!Error::Http { status: 503, message: String::new() }.is_auth_failure());
}

#[test]
fn a_migrated_install_with_nothing_to_bootstrap_is_reported_as_a_dead_end() {
    let tried = vec!["/tmp/stored-accounts.json".to_string()];
    let migrated = desktop(&[], &["stored-accounts.json.enc"], false, false);

    let report = import_failure(auth::Error::NoDesktopCredentials { tried }, migrated);
    assert_eq!(report.code, codes::NO_BOOTSTRAP_CREDENTIALS);
    assert_eq!(report.recovery, RecoveryHint::DeadEnd);
    assert!(!report.ok);
    assert!(report.message.ends_with("Looked in: /tmp/stored-accounts.json."));
}

#[test]
fn a_missing_desktop_install_is_reported_as_needing_sign_in() {
    let report = import_failure(
        auth::Error::NoDesktopCredentials { tried: Vec::new() },
        desktop(&[], &[], false, false),
    );
    assert_eq!(report.code, codes::NO_DESKTOP_CREDENTIALS);
    assert_eq!(report.recovery, RecoveryHint::SignInToDesktop);
}

#[test]
fn a_rejected_bootstrap_token_is_reported_as_a_dead_end() {
    let report = import_failure(
        auth::Error::RefreshRejected { status: 400 },
        desktop(&["stored-accounts.json"], &[], false, true),
    );
    assert_eq!(report.code, codes::BOOTSTRAP_REFRESH_REJECTED);
    assert_eq!(report.recovery, RecoveryHint::DeadEnd);
}

#[test]
fn recovery_hints_follow_what_is_actually_on_disk() {
    assert_eq!(
        reimport_hint(&desktop(&[], &["supabase.json.enc"], true, false)),
        RecoveryHint::ApproveKeychain
    );
    assert_eq!(
        reimport_hint(&desktop(&["stored-accounts.json"], &[], false, true)),
        RecoveryHint::Reimport
    );
    assert_eq!(
        reimport_hint(&desktop(&[], &[], false, false)),
        RecoveryHint::SignInToDesktop
    );
    // A file without a token still can be imported.
    assert_eq!(
        reimport_hint(&desktop(&["supabase.json"], &[], true, false)),
        RecoveryHint::Reimport
    );
}

#[test]
fn report_messages_carry_no_front_end_specific_instruction() {
    let reports = [
        import_failure(
            auth::Error::NoDesktopCredentials { tried: Vec::new() },
            desktop(&[], &[], false, false),
        ),
        import_failure(
            auth::Error::RefreshRejected { status: 401 },
            desktop(&[], &[], false, false),
        ),
        import_failure(auth::Error::Keyring(cause("k")), desktop(&[], &[], false, false)),
        import_failure(auth::Error::Http(cause("h")), desktop(&[], &[], false, false)),
        import_failure(auth::Error::NoHomeDir, desktop(&[], &[], false, false)),
        import_timed_out(desktop(&[], &[], false, false), false),
    ];
    for report in reports {
        let message = report.message.to_lowercase();
        for banned in ["granola auth login", "terminal", "browser"] {
            assert!(
                !message.contains(banned),
                "report {} leaked front-end phrasing {banned:?}: {}",
                report.code,
                report.message
            );
        }
    }
}

#[test]
fn a_cached_client_is_reused_without_reading_the_keychain() {
    let mut cache = cache_of("seeded-token");
    let mut calls = 0;
    for _ in 0..3 {
        let flow = with_token_refresh(cache);
        match flow.wait() {
            Wait::FirstCall(client) => {
                assert_eq!(client.access_token, "seeded-token");
                calls += 1;
            }
            _ => panic!("cached credentials must satisfy with_token_refresh"),
        }
        let flow = flow.answer(Event::CallSucceeded);
        assert!(matches!(flow.wait(), Wait::Succeeded));
        cache = ClientCache { client: flow.cache().cached_client() };
    }
    assert_eq!(calls, 3, "closure should run once per call");

    cache.clear_cached_client();
    assert!(matches!(with_token_refresh(cache).wait(), Wait::Keychain));
}

fn failed(flow: &Flow) -> &Error {
    match flow.wait() {
        Wait::Failed(e) => e,
        _ => panic!("the flow should have failed"),
    }
}

#[test]
fn the_keychain_gives_the_first_client() {
    let flow = with_credentials(Recovery::RefreshOnly, ClientCache::new());
    let flow = flow.answer(Event::Stored(Ok(Some(creds("AT")))));
    assert!(matches!(flow.wait(), Wait::FirstCall(c) if c.access_token == "AT"));
    assert_eq!(flow.cache().cached_client(), Some(Client::new("AT".into())));

    let flow = with_credentials(Recovery::RefreshOnly, ClientCache::new());
    assert_eq!(failed(&flow.answer(Event::Stored(Ok(None)))), &Error::Unauthenticated);
    let flow = with_token_refresh(ClientCache::new());
    let flow = flow.answer(Event::Stored(Err(auth::Error::Keyring(cause("k")))));
    assert_eq!(failed(&flow), &Error::Auth(auth::Error::Keyring(cause("k"))));
}

#[test]
fn an_empty_keychain_leads_to_an_import() {
    let flow = with_token_refresh(ClientCache::new()).answer(Event::Stored(Ok(None)));
    assert!(matches!(flow.wait(), Wait::Probe(false)));
    let flow = flow.answer(Event::Probed(false));
    assert!(matches!(flow.wait(), Wait::Login(false)));
    let flow = flow.answer(Event::LoggedIn(Ok(creds("NEW"))));
    // The call that follows may still be mended once.
    assert!(matches!(flow.wait(), Wait::FirstCall(c) if c.access_token == "NEW"));
    let flow = flow.answer(Event::CallFailed(unauthorized()));
    assert!(matches!(flow.wait(), Wait::Refresh(t) if t == "NEW"));

    // An import that would hold the call is refused.
    let flow = with_token_refresh(ClientCache::new())
        .answer(Event::Stored(Ok(None)))
        .answer(Event::Probed(true));
    assert_eq!(failed(&flow), &Error::NeedsKeychainApproval);
    let flow = with_token_refresh(ClientCache::new())
        .answer(Event::Stored(Ok(None)))
        .answer(Event::Probed(false))
        .answer(Event::LoggedIn(Err(auth::Error::NoHomeDir)));
    assert_eq!(failed(&flow), &Error::Auth(auth::Error::NoHomeDir));
}

#[test]
fn a_rejected_call_is_renewed_once() {
    let flow = with_credentials(Recovery::RefreshOnly, cache_of("OLD"))
        .answer(Event::CallFailed(unauthorized()));
    assert!(matches!(flow.wait(), Wait::Refresh(t) if t == "OLD"));
    let flow = flow.answer(Event::Refreshed(Ok(creds("NEW"))));
    assert!(matches!(flow.wait(), Wait::LastCall(c) if c.access_token == "NEW"));
    assert_eq!(flow.cache().cached_client(), Some(Client::new("NEW".into())));
    // The second rejection is the end.
    let flow = flow.answer(Event::CallFailed(unauthorized()));
    assert_eq!(failed(&flow), &unauthorized());

    // Other failures are reported at once.
    let flow = with_token_refresh(cache_of("OLD"))
        .answer(Event::CallFailed(Error::Transport("dns".into())));
    assert_eq!(failed(&flow), &Error::Transport("dns".into()));
    // With a policy of renewal only, a dead chain is the end.
    let flow = with_credentials(Recovery::RefreshOnly, cache_of("OLD"))
        .answer(Event::CallFailed(unauthorized()))
        .answer(Event::Refreshed(Err(auth::Error::RefreshRejected { status: 400 })));
    assert_eq!(failed(&flow), &Error::Auth(auth::Error::RefreshRejected { status: 400 }));
    // A transient failure is the end as well.
    let flow = with_token_refresh(cache_of("OLD"))
        .answer(Event::CallFailed(unauthorized()))
        .answer(Event::Refreshed(Err(auth::Error::Http(cause("dns")))));
    assert_eq!(failed(&flow), &Error::Auth(auth::Error::Http(cause("dns"))));
}

#[test]
fn a_renewal_that_the_service_failed_says_nothing_of_the_session() {
    for (status, over) in [(400, true), (401, true), (499, true), (500, false), (503, false)] {
        assert_eq!(
            should_reimport(
                Recovery::RefreshThenReimport,
                &auth::Error::RefreshRejected { status }
            ),
            over,
            "{status}"
        );
    }
    let flow = with_token_refresh(cache_of("OLD"))
        .answer(Event::CallFailed(unauthorized()))
        .answer(Event::Refreshed(Err(auth::Error::RefreshRejected { status: 503 })));
    assert_eq!(failed(&flow), &Error::Auth(auth::Error::RefreshRejected { status: 503 }));
}

#[test]
fn a_trial_of_credentials_never_imports() {
    let flow = validation(cache_of("NEW")).answer(Event::CallFailed(unauthorized()));
    assert!(matches!(flow.wait(), Wait::Refresh(_)));
    let flow = flow.answer(Event::Refreshed(Err(auth::Error::RefreshRejected { status: 401 })));
    assert_eq!(failed(&flow), &Error::Auth(auth::Error::RefreshRejected { status: 401 }));
    let flow = validation(ClientCache::new()).answer(Event::Stored(Ok(None)));
    assert_eq!(failed(&flow), &Error::Unauthenticated);
}

#[test]
fn a_dead_chain_is_imported_anew() {
    let dead = || {
        with_token_refresh(cache_of("OLD"))
            .answer(Event::CallFailed(unauthorized()))
            .answer(Event::Refreshed(Err(auth::Error::RefreshRejected { status: 400 })))
    };
    assert!(matches!(dead().wait(), Wait::Reread(t) if t == "OLD"));
    // Another process has renewed the session meanwhile.
    let flow = dead().answer(Event::Stored(Ok(Some(creds("OTHER")))));
    assert!(matches!(flow.wait(), Wait::LastCall(c) if c.access_token == "OTHER"));
    // The same token, an empty one, or none: import.
    for stored in [Some(creds("OLD")), Some(creds("")), None] {
        let flow = dead().answer(Event::Stored(Ok(stored)));
        assert!(matches!(flow.wait(), Wait::Probe(true)));
    }
    let flow = dead()
        .answer(Event::Stored(Ok(None)))
        .answer(Event::Probed(false))
        .answer(Event::LoggedIn(Ok(creds("NEW"))));
    assert!(matches!(flow.wait(), Wait::LastCall(c) if c.access_token == "NEW"));
    assert!(matches!(flow.answer(Event::CallSucceeded).wait(), Wait::Succeeded));
    let flow = dead().answer(Event::Stored(Err(auth::Error::NoHomeDir)));
    assert_eq!(failed(&flow), &Error::Auth(auth::Error::NoHomeDir));
    let flow = dead().answer(Event::Stored(Ok(None))).answer(Event::Probed(true));
    assert_eq!(failed(&flow), &Error::NeedsKeychainApproval);
    // An event that is not waited for changes nothing.
    assert!(matches!(dead().answer(Event::CallSucceeded).wait(), Wait::Reread(_)));
}

#[test]
fn a_busy_service_is_asked_again() {
    for status in [429, 500, 501, 502, 503, 504, 599] {
        for (attempt, wait) in [(0, 250), (1, 500), (2, 1000)] {
            match post(attempt, Reply::Status(status, "busy".into())) {
                Sending::Again { wait_ms } => assert_eq!(wait_ms, wait),
                _ => panic!("to be sent again"),
            }
        }
        match post(MAX_RETRIES, Reply::Status(status, "busy".into())) {
            Sending::Failed(e) => assert_eq!(e, Error::Http { status, message: "busy".into() }),
            _ => panic!("no attempt is left"),
        }
    }
    match post(0, Reply::Status(401, "body".into())) {
        Sending::Failed(e) => assert_eq!(e, unauthorized()),
        _ => panic!("a rejection is reported at once"),
    }
    match post(0, Reply::Status(600, "odd".into())) {
        Sending::Failed(e) => {
            assert_eq!(e, Error::Http { status: 600, message: "odd".into() });
        }
        _ => panic!("not to be sent again"),
    }
    match post(0, Reply::Status(404, "gone".into())) {
        Sending::Failed(e) => {
            assert_eq!(e, Error::Http { status: 404, message: "gone".into() });
        }
        _ => panic!("not to be sent again"),
    }
    assert!(matches!(post(0, Reply::Value(Json::Null)), Sending::Received(Json::Null)));
    for reply in [Reply::Unreadable("x".into()), Reply::Unreachable("x".into())] {
        match post(0, reply) {
            Sending::Failed(e) => assert_eq!(e, Error::Transport("x".into())),
            _ => panic!("failed"),
        }
    }
}

#[test]
fn requests_have_paths_and_bodies() {
    let c = Client::new("T".into());
    let shape = |r: granola::api::Request| (r.path.clone(), value(&r.body).to_string());
    assert_eq!(shape(c.get_workspaces()), ("/v1/get-workspaces".into(), "{}".into()));
    assert_eq!(shape(c.get_document_lists()), ("/v2/get-document-lists".into(), "{}".into()));
    let r = c.get_documents(100, 200, false);
    assert_eq!(r.path, "/v2/get-documents");
    assert_eq!(
        value(&r.body),
        serde_json::from_str::<Value>(
            r#"{"limit":100,"offset":200,"include_last_viewed_panel":false}"#
        )
        .unwrap()
    );
    let r = c.get_documents_batch(&vec!["a".into(), "b".into()], true);
    assert_eq!(r.path, "/v1/get-documents-batch");
    assert_eq!(
        value(&r.body),
        serde_json::from_str::<Value>(
            r#"{"document_ids":["a","b"],"include_last_viewed_panel":true}"#
        )
        .unwrap()
    );
    assert_eq!(
        shape(c.get_document_metadata("x")),
        ("/v1/get-document-metadata".into(), r#"{"document_id":"x"}"#.into())
    );
    assert_eq!(
        shape(c.get_document_transcript("x")),
        ("/v1/get-document-transcript".into(), r#"{"document_id":"x"}"#.into())
    );
    let headers = c.headers("1.2.3", "linux", "x86_64");
    let found: Vec<(&str, &str)> =
        headers.iter().map(|(a, b)| (a.as_str(), b.as_str())).collect();
    assert_eq!(
        found,
        vec![
            ("Authorization", "Bearer T"),
            ("Content-Type", "application/json"),
            ("X-App-Version", "7.427.3"),
            ("X-Client-Version", "7.427.3"),
            ("X-Client-Type", "cli"),
            ("X-Client-Platform", "linux"),
            ("X-Client-Architecture", "x86_64"),
            ("X-Client-Id", "granola-cli-1.2.3"),
            ("User-Agent", "Granola/7.427.3 granola-cli/1.2.3 (linux x86_64)"),
        ]
    );
}

#[test]
fn a_client_comes_from_the_keychain() {
    assert_eq!(Client::from_keychain(Ok(Some(creds("A")))), Ok(Client::new("A".into())));
    assert_eq!(Client::from_keychain(Ok(None)), Err(Error::Unauthenticated));
    assert_eq!(
        Client::from_keychain(Err(auth::Error::NoHomeDir)),
        Err(Error::Auth(auth::Error::NoHomeDir))
    );
}

#[test]
fn service_errors_say_what_happened() {
    assert_eq!(
        Error::Auth(auth::Error::NoHomeDir).message(),
        "auth: could not determine user home/cache directory"
    );
    assert_eq!(
        Error::Http { status: 503, message: "busy".into() }.message(),
        "HTTP 503: busy"
    );
    assert_eq!(Error::Transport("t".into()).message(), "transport: t");
    assert_eq!(Error::Json(cause("j")).message(), "json: j");
    assert_eq!(Error::Unauthenticated.message(), "no Granola credentials are stored");
    assert_eq!(
        Error::NeedsKeychainApproval.message(),
        "stored credentials were rejected, and re-importing them needs one-time approval for Granola's own Keychain item"
    );
    assert!(unauthorized().is_unauthorized());
    assert!(!Error::Unauthenticated.is_unauthorized());
    assert!(Error::Auth(auth::Error::Keyring(cause("k"))).is_auth_failure());
    assert!(Error::Auth(auth::Error::DesktopKeyMigrated).is_auth_failure());
    assert!(!Error::Auth(auth::Error::NoHomeDir).is_auth_failure());
}

#[test]
fn errors_are_told_with_their_causes() {
    let keychain = || auth::Error::Keyring(cause("locked"));
    assert_eq!(keychain().chain(), "keychain: locked: locked");
    assert_eq!(
        Error::Auth(keychain()).chain(),
        "auth: keychain: locked: keychain: locked: locked"
    );
    assert_eq!(auth::Error::Io(cause("gone")).chain(), "io: gone: gone");
    assert_eq!(auth::Error::Json(cause("eof")).chain(), "json: eof: eof");
    assert_eq!(auth::Error::Http(cause("dns")).chain(), "network: dns: dns");
    assert_eq!(auth::Error::NoHomeDir.chain(), auth::Error::NoHomeDir.message());
    assert_eq!(Error::Json(cause("eof")).chain(), "json: eof: eof");
    let deep = Cause { text: "a".into(), behind: vec!["b".into(), "c".into()] };
    assert_eq!(deep.chain(), "a: b: c");
    assert_eq!(auth::Error::Keyring(deep).chain(), "keychain: a: a: b: c");
    assert_eq!(Error::Transport("dns".into()).chain(), "transport: dns");
    assert_eq!(unauthorized().chain(), "HTTP 401: unauthorized");
}

#[test]
fn a_flow_hands_over_its_failure() {
    let flow = with_token_refresh(cache_of("OLD"))
        .answer(Event::CallFailed(Error::Transport("dns".into())));
    assert_eq!(flow.into_failure(), Some(Error::Transport("dns".into())));
    let flow = with_token_refresh(cache_of("OLD")).answer(Event::CallSucceeded);
    assert_eq!(flow.into_failure(), None);
}

#[test]
fn status_reports_name_each_outcome() {
    let files = || desktop(&["stored-accounts.json"], &[], false, true);
    let r = auth_report(files(), Stored::Missing, None);
    assert_eq!((r.ok, r.code, r.recovery), (false, codes::UNAUTHENTICATED, RecoveryHint::Reimport));
    assert!(!r.credentials_present);
    let r = auth_report(files(), Stored::Unreadable(auth::Error::Keyring(cause("k"))), None);
    assert_eq!((r.code, r.recovery), (codes::KEYCHAIN_UNAVAILABLE, RecoveryHint::FixKeychainAccess));
    assert_eq!(r.message, "The OS keychain could not be read: keychain: k");
    let r = auth_report(files(), Stored::Present, None);
    assert_eq!((r.ok, r.code, r.recovery), (true, codes::OK, RecoveryHint::Nothing));
    assert_eq!(r.source, Some(CredentialSource::Keychain));
    assert!(r.validated && r.credentials_present);
    let r = auth_report(files(), Stored::Present, Some(unauthorized()));
    assert_eq!((r.code, r.recovery), (codes::STALE_CREDENTIALS, RecoveryHint::Reimport));
    assert!(r.credentials_present && !r.validated);
    let r = auth_report(files(), Stored::Present, Some(Error::Transport("dns".into())));
    assert_eq!((r.code, r.recovery), (codes::API_UNREACHABLE, RecoveryHint::Retry));
    assert_eq!(r.message, "Could not reach Granola to validate credentials: transport: dns");
}

#[test]
fn login_reports_name_each_outcome() {
    let files = || desktop(&[], &[], false, false);
    let r = authenticate(files(), Ok(CredentialSource::Bootstrap), None);
    assert_eq!((r.ok, r.code), (true, codes::OK));
    assert_eq!(r.source, Some(CredentialSource::Bootstrap));
    let r = authenticate(files(), Ok(CredentialSource::DesktopImport), Some(unauthorized()));
    assert_eq!((r.code, r.recovery), (codes::STALE_CREDENTIALS, RecoveryHint::SignInToDesktop));
    assert_eq!(
        r.message,
        "Credentials were imported but Granola rejected them: HTTP 401: unauthorized. The Granola desktop app's own session is probably stale."
    );
    let r = authenticate(
        files(),
        Ok(CredentialSource::DesktopImport),
        Some(Error::Transport("dns".into())),
    );
    assert_eq!((r.code, r.recovery), (codes::API_UNREACHABLE, RecoveryHint::Retry));
    let r = authenticate(files(), Err(auth::Error::Keyring(cause("k"))), None);
    assert_eq!((r.code, r.recovery), (codes::KEYCHAIN_UNAVAILABLE, RecoveryHint::FixKeychainAccess));
    assert_eq!(r.message, "The OS keychain could not be used: k");
    let r = authenticate(files(), Err(auth::Error::Http(cause("h"))), None);
    assert_eq!((r.code, r.recovery), (codes::API_UNREACHABLE, RecoveryHint::Retry));
    let r = authenticate(files(), Err(auth::Error::NoHomeDir), None);
    assert_eq!((r.code, r.recovery), (codes::NO_DESKTOP_CREDENTIALS, RecoveryHint::SignInToDesktop));
    assert_eq!(
        r.message,
        "Could not import Granola desktop credentials: could not determine user home/cache directory"
    );
    let r = import_timed_out(files(), true);
    assert_eq!((r.code, r.recovery), (codes::NEEDS_KEYCHAIN_APPROVAL, RecoveryHint::ApproveKeychain));
    assert!(r.credentials_present && !r.ok);
}
