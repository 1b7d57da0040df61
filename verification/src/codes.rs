//! The outcomes that a report or a command can name. Programs branch on these
//! names.

use vstd::prelude::*;

verus! {

pub const OK: &'static str = "ok";

pub const UNAUTHENTICATED: &'static str = "unauthenticated";

pub const STALE_CREDENTIALS: &'static str = "stale_credentials";

pub const NO_DESKTOP_CREDENTIALS: &'static str = "no_desktop_credentials";

pub const NO_BOOTSTRAP_CREDENTIALS: &'static str = "no_bootstrap_credentials";

pub const BOOTSTRAP_REFRESH_REJECTED: &'static str = "bootstrap_refresh_rejected";

pub const NEEDS_KEYCHAIN_APPROVAL: &'static str = "needs_keychain_approval";

pub const KEYCHAIN_UNAVAILABLE: &'static str = "keychain_unavailable";

pub const API_UNREACHABLE: &'static str = "api_unreachable";

/// What went wrong has no name of its own.
pub const FAILED: &'static str = "failed";

/// Each outcome goes by its name.
pub proof fn law_outcomes_have_names()
    ensures
        OK@ == "ok"@,
        UNAUTHENTICATED@ == "unauthenticated"@,
        STALE_CREDENTIALS@ == "stale_credentials"@,
        NO_DESKTOP_CREDENTIALS@ == "no_desktop_credentials"@,
        NO_BOOTSTRAP_CREDENTIALS@ == "no_bootstrap_credentials"@,
        BOOTSTRAP_REFRESH_REJECTED@ == "bootstrap_refresh_rejected"@,
        NEEDS_KEYCHAIN_APPROVAL@ == "needs_keychain_approval"@,
        KEYCHAIN_UNAVAILABLE@ == "keychain_unavailable"@,
        API_UNREACHABLE@ == "api_unreachable"@,
        FAILED@ == "failed"@,
{
}

} // verus!
