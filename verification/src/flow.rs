//! A call with working credentials: when the session is renewed, when it is
//! imported anew, and when the call is given up.

use crate::api;
use crate::api::{Client, Error, ErrorView};
use crate::auth;
use crate::auth::{Credentials, CredentialsView};
use crate::desktop;
use crate::json;
use crate::session;
use crate::text::text_eq;
use vstd::prelude::*;

verus! {

/// How far a call may go to get working credentials.
#[derive(Debug, Clone, Copy, PartialEq, Eq, Structural)]
pub enum Recovery {
    /// Exchange the stored refresh token, and no more.
    RefreshOnly,
    /// If the refresh token is dead too, import from the desktop app.
    RefreshThenReimport,
}

// ---- The cache --------------------------------------------------------------

/// The client that a process keeps, so that the keychain is read once and not
/// for every call.
#[derive(Debug, PartialEq, Eq)]
pub struct ClientCache {
    pub client: Option<Client>,
}

impl View for ClientCache {
    type V = Option<Seq<char>>;

    open spec fn view(&self) -> Option<Seq<char>> {
        json::seen(self.client)
    }
}

impl ClientCache {
    /// A cache that holds nothing.
    pub fn new() -> (r: ClientCache)
        ensures
            r@ == None::<Seq<char>>,
    {
        ClientCache { client: None }
    }

    /// Keeps a client in place of any other.
    pub fn cache_client(&mut self, client: Client)
        ensures
            final(self)@ == Some(client@),
    {
        self.client = Some(client);
    }

    /// Drops the client, so that the keychain is read again.
    pub fn clear_cached_client(&mut self)
        ensures
            final(self)@ == None::<Seq<char>>,
    {
        self.client = None;
    }

    /// The client that is kept, if any.
    pub fn cached_client(&self) -> (r: Option<Client>)
        ensures
            json::seen(r) == self@,
    {
        match &self.client {
            Some(c) => Some(c.clone()),
            None => None,
        }
    }
}

// ---- The flow ---------------------------------------------------------------

/// What a flow waits for.
pub enum Wait {
    /// The keychain is to be read, for the first client.
    Keychain,
    /// The call is to be made; a rejection may still be mended.
    FirstCall(Client),
    /// The session is to be renewed; this token was rejected.
    Refresh(String),
    /// The keychain is to be read again; this token was rejected.
    Reread(String),
    /// Whether an import would ask for the desktop app's own keychain item is
    /// to be found out. The flag tells that the call that follows is the last.
    Probe(bool),
    /// Credentials are to be imported. The flag is that of `Probe`.
    Login(bool),
    /// The call is to be made for the last time.
    LastCall(Client),
    /// The call was made, and it succeeded.
    Succeeded,
    /// There is nothing more to try.
    Failed(Error),
}

/// What a [`Wait`] says.
pub enum WaitView {
    Keychain,
    FirstCall(Seq<char>),
    Refresh(Seq<char>),
    Reread(Seq<char>),
    Probe(bool),
    Login(bool),
    LastCall(Seq<char>),
    Succeeded,
    Failed(ErrorView),
}

impl View for Wait {
    type V = WaitView;

    open spec fn view(&self) -> WaitView {
        match self {
            Wait::Keychain => WaitView::Keychain,
            Wait::FirstCall(c) => WaitView::FirstCall(c@),
            Wait::Refresh(s) => WaitView::Refresh(s@),
            Wait::Reread(s) => WaitView::Reread(s@),
            Wait::Probe(last) => WaitView::Probe(*last),
            Wait::Login(last) => WaitView::Login(*last),
            Wait::LastCall(c) => WaitView::LastCall(c@),
            Wait::Succeeded => WaitView::Succeeded,
            Wait::Failed(e) => WaitView::Failed(e@),
        }
    }
}

/// What happened meanwhile.
pub enum Event {
    /// The keychain was read.
    Stored(Result<Option<Credentials>, auth::Error>),
    /// The call succeeded.
    CallSucceeded,
    /// The call failed.
    CallFailed(Error),
    /// The session was renewed, or could not be.
    Refreshed(Result<Credentials, auth::Error>),
    /// Whether an import would ask for the desktop app's own keychain item.
    Probed(bool),
    /// Credentials were imported, or could not be.
    LoggedIn(Result<Credentials, auth::Error>),
}

/// What an [`Event`] says.
pub enum EventView {
    Stored(Result<Option<CredentialsView>, auth::ErrorView>),
    CallSucceeded,
    CallFailed(ErrorView),
    Refreshed(Result<CredentialsView, auth::ErrorView>),
    Probed(bool),
    LoggedIn(Result<CredentialsView, auth::ErrorView>),
}

impl View for Event {
    type V = EventView;

    open spec fn view(&self) -> EventView {
        match self {
            Event::Stored(r) => EventView::Stored(session::stored_result(*r)),
            Event::CallSucceeded => EventView::CallSucceeded,
            Event::CallFailed(e) => EventView::CallFailed(e@),
            Event::Refreshed(r) => EventView::Refreshed(desktop::credentials_result(*r)),
            Event::Probed(b) => EventView::Probed(*b),
            Event::LoggedIn(r) => EventView::LoggedIn(desktop::credentials_result(*r)),
        }
    }
}

/// A call on its way, with the cache as it is to be left.
pub struct Flow {
    policy: Recovery,
    cache: ClientCache,
    wait: Wait,
}

/// What a [`Flow`] holds.
#[verifier::ext_equal]
pub struct FlowView {
    pub policy: Recovery,
    pub cache: Option<Seq<char>>,
    pub wait: WaitView,
}

impl View for Flow {
    type V = FlowView;

    closed spec fn view(&self) -> FlowView {
        FlowView { policy: self.policy, cache: self.cache@, wait: self.wait@ }
    }
}

/// Whether a renewal failed because its refresh token was turned away, or there
/// is none. One that failed on the network, or by a fault of the service's own,
/// says nothing of the token.
pub open spec fn renewal_hopeless(e: auth::ErrorView) -> bool {
    (e matches auth::ErrorView::RefreshRejected { status } && 400 <= status < 500)
        || e is NoCredentials
}

/// Whether a failed renewal leads to an import.
pub open spec fn reimports(policy: Recovery, e: auth::ErrorView) -> bool {
    policy == Recovery::RefreshThenReimport && renewal_hopeless(e)
}

impl FlowView {
    /// A call that begins with a cache.
    pub open spec fn begun(policy: Recovery, cache: Option<Seq<char>>) -> FlowView {
        FlowView {
            policy,
            cache,
            wait: match cache {
                Some(token) => WaitView::FirstCall(token),
                None => WaitView::Keychain,
            },
        }
    }

    /// The flow after it gave up.
    pub open spec fn given_up(self, e: ErrorView) -> FlowView {
        FlowView { wait: WaitView::Failed(e), ..self }
    }

    /// The flow that has a new client for its next call.
    pub open spec fn with_client(self, token: Seq<char>, last: bool) -> FlowView {
        FlowView {
            cache: Some(token),
            wait: if last {
                WaitView::LastCall(token)
            } else {
                WaitView::FirstCall(token)
            },
            ..self
        }
    }

    /// The flow after an event. One that it does not wait for changes nothing.
    pub open spec fn after(self, event: EventView) -> FlowView {
        match (self.wait, event) {
            (WaitView::Keychain, EventView::Stored(r)) => match api::stored_client(r) {
                Ok(token) => self.with_client(token, false),
                Err(e) => if e is Unauthenticated && self.policy
                    == Recovery::RefreshThenReimport {
                    FlowView { wait: WaitView::Probe(false), ..self }
                } else {
                    self.given_up(e)
                },
            },
            (WaitView::FirstCall(_), EventView::CallSucceeded) => FlowView {
                wait: WaitView::Succeeded,
                ..self
            },
            (WaitView::FirstCall(token), EventView::CallFailed(e)) => if api::is_unauthorized(e) {
                FlowView { wait: WaitView::Refresh(token), ..self }
            } else {
                self.given_up(e)
            },
            (WaitView::Refresh(rejected), EventView::Refreshed(r)) => match r {
                Ok(c) => self.with_client(c.access_token, true),
                Err(e) => if reimports(self.policy, e) {
                    FlowView { wait: WaitView::Reread(rejected), ..self }
                } else {
                    self.given_up(ErrorView::Auth(e))
                },
            },
            (WaitView::Reread(rejected), EventView::Stored(r)) => match r {
                Err(e) => self.given_up(ErrorView::Auth(e)),
                Ok(o) => match o {
                    Some(c) => if c.access_token.len() > 0 && c.access_token != rejected {
                        self.with_client(c.access_token, true)
                    } else {
                        FlowView { wait: WaitView::Probe(true), ..self }
                    },
                    None => FlowView { wait: WaitView::Probe(true), ..self },
                },
            },
            (WaitView::Probe(last), EventView::Probed(blocking)) => if blocking {
                self.given_up(ErrorView::NeedsKeychainApproval)
            } else {
                FlowView { wait: WaitView::Login(last), ..self }
            },
            (WaitView::Login(last), EventView::LoggedIn(r)) => match r {
                Ok(c) => self.with_client(c.access_token, last),
                Err(e) => self.given_up(ErrorView::Auth(e)),
            },
            (WaitView::LastCall(_), EventView::CallSucceeded) => FlowView {
                wait: WaitView::Succeeded,
                ..self
            },
            (WaitView::LastCall(_), EventView::CallFailed(e)) => self.given_up(e),
            _ => self,
        }
    }

    /// The flow after some events, one after the other.
    pub open spec fn after_all(self, events: Seq<EventView>) -> FlowView
        decreases events.len(),
    {
        if events.len() == 0 {
            self
        } else {
            self.after_all(events.drop_last()).after(events.last())
        }
    }

    /// Whether the flow is on its way to an import.
    pub open spec fn importing(self) -> bool {
        self.wait is Reread || self.wait is Probe || self.wait is Login
    }
}

/// Whether a failed renewal leads to an import: the policy must allow it, and
/// the refresh token must have been turned away or be missing.
pub fn should_reimport(policy: Recovery, e: &auth::Error) -> (r: bool)
    ensures
        r == reimports(policy, e@),
{
    policy == Recovery::RefreshThenReimport && (match e {
        auth::Error::RefreshRejected { status } => 400 <= *status && *status < 500,
        auth::Error::NoCredentials => true,
        _ => false,
    })
}

/// Begins a call with working credentials, as far as the policy allows.
pub fn with_credentials(policy: Recovery, cache: ClientCache) -> (r: Flow)
    ensures
        r@ == FlowView::begun(policy, cache@),
{
    let wait = match cache.cached_client() {
        Some(c) => Wait::FirstCall(c),
        None => Wait::Keychain,
    };
    let r = Flow { policy, cache, wait };
    assert(r@ =~= FlowView::begun(policy, cache@));
    r
}

/// Begins a call that may import credentials if the session cannot be renewed.
pub fn with_token_refresh(cache: ClientCache) -> (r: Flow)
    ensures
        r@ == FlowView::begun(Recovery::RefreshThenReimport, cache@),
{
    with_credentials(Recovery::RefreshThenReimport, cache)
}

/// Begins a call that tries credentials, after a login or for a status. It may
/// renew the session, and no more: an import that is tried by a call must not
/// lead to another import.
pub fn validation(cache: ClientCache) -> (r: Flow)
    ensures
        r@ == FlowView::begun(Recovery::RefreshOnly, cache@),
{
    with_credentials(Recovery::RefreshOnly, cache)
}

impl Flow {
    /// What the flow waits for.
    pub fn wait(&self) -> (r: &Wait)
        ensures
            r@ == self@.wait,
    {
        &self.wait
    }

    /// The cache as it is to be left.
    pub fn cache(&self) -> (r: &ClientCache)
        ensures
            r@ == self@.cache,
    {
        &self.cache
    }

    /// The error with which the flow gave up, if it did.
    pub fn into_failure(self) -> (r: Option<Error>)
        ensures
            json::seen(r) == (match self@.wait {
                WaitView::Failed(e) => Some(e),
                _ => None,
            }),
    {
        match self.wait {
            Wait::Failed(e) => Some(e),
            _ => None,
        }
    }

    /// The flow that has a new client for its next call.
    fn give_client(self, token: String, last: bool) -> (r: Flow)
        ensures
            r@ == self@.with_client(token@, last),
    {
        let client = Client::new(token);
        let mut cache = self.cache;
        cache.cache_client(client.clone());
        let wait = if last {
            Wait::LastCall(client)
        } else {
            Wait::FirstCall(client)
        };
        let r = Flow { policy: self.policy, cache, wait };
        assert(r@ =~= self@.with_client(token@, last));
        r
    }

    /// The flow that waits for something else.
    fn turn(self, wait: Wait) -> (r: Flow)
        ensures
            r@ == (FlowView { wait: wait@, ..self@ }),
    {
        let r = Flow { policy: self.policy, cache: self.cache, wait };
        assert(r@ =~= (FlowView { wait: wait@, ..self@ }));
        r
    }

    /// Takes in an event. One that the flow does not wait for changes nothing.
    pub fn answer(self, event: Event) -> (r: Flow)
        ensures
            r@ == self@.after(event@),
    {
        let Flow { policy, cache, wait } = self;
        match (wait, event) {
            (Wait::Keychain, Event::Stored(stored)) => {
                let flow = Flow { policy, cache, wait: Wait::Keychain };
                assert(flow@ =~= self@);
                match Client::from_keychain(stored) {
                    Ok(c) => flow.give_client(c.access_token, false),
                    Err(Error::Unauthenticated) => if policy == Recovery::RefreshThenReimport {
                        flow.turn(Wait::Probe(false))
                    } else {
                        flow.turn(Wait::Failed(Error::Unauthenticated))
                    },
                    Err(e) => flow.turn(Wait::Failed(e)),
                }
            },
            (Wait::FirstCall(c), Event::CallSucceeded) => Flow { policy, cache, wait: Wait::Succeeded },
            (Wait::FirstCall(c), Event::CallFailed(e)) => if e.is_unauthorized() {
                Flow { policy, cache, wait: Wait::Refresh(c.access_token) }
            } else {
                Flow { policy, cache, wait: Wait::Failed(e) }
            },
            (Wait::Refresh(rejected), Event::Refreshed(r)) => match r {
                Ok(c) => {
                    let flow = Flow { policy, cache, wait: Wait::Refresh(rejected) };
                    flow.give_client(c.access_token, true)
                },
                Err(e) => if should_reimport(policy, &e) {
                    Flow { policy, cache, wait: Wait::Reread(rejected) }
                } else {
                    Flow { policy, cache, wait: Wait::Failed(Error::Auth(e)) }
                },
            },
            (Wait::Reread(rejected), Event::Stored(stored)) => match stored {
                Err(e) => Flow { policy, cache, wait: Wait::Failed(Error::Auth(e)) },
                Ok(o) => match o {
                    Some(c) => if !c.access_token.as_str().is_empty() && !text_eq(
                        c.access_token.as_str(),
                        rejected.as_str(),
                    ) {
                        let flow = Flow { policy, cache, wait: Wait::Reread(rejected) };
                        flow.give_client(c.access_token, true)
                    } else {
                        Flow { policy, cache, wait: Wait::Probe(true) }
                    },
                    None => Flow { policy, cache, wait: Wait::Probe(true) },
                },
            },
            (Wait::Probe(last), Event::Probed(blocking)) => if blocking {
                Flow { policy, cache, wait: Wait::Failed(Error::NeedsKeychainApproval) }
            } else {
                Flow { policy, cache, wait: Wait::Login(last) }
            },
            (Wait::Login(last), Event::LoggedIn(r)) => match r {
                Ok(c) => {
                    let flow = Flow { policy, cache, wait: Wait::Login(last) };
                    flow.give_client(c.access_token, last)
                },
                Err(e) => Flow { policy, cache, wait: Wait::Failed(Error::Auth(e)) },
            },
            (Wait::LastCall(c), Event::CallSucceeded) => Flow { policy, cache, wait: Wait::Succeeded },
            (Wait::LastCall(c), Event::CallFailed(e)) => Flow {
                policy,
                cache,
                wait: Wait::Failed(e),
            },
            (wait, _) => Flow { policy, cache, wait },
        }
    }
}

// ---- What holds of a flow ---------------------------------------------------

/// What is left of a flow: each event that it waits for takes it further.
pub open spec fn rank(wait: WaitView) -> nat {
    match wait {
        WaitView::Keychain => 9,
        WaitView::Probe(last) => if last {
            3
        } else {
            8
        },
        WaitView::Login(last) => if last {
            2
        } else {
            7
        },
        WaitView::FirstCall(_) => 6,
        WaitView::Refresh(_) => 5,
        WaitView::Reread(_) => 4,
        WaitView::LastCall(_) => 1,
        WaitView::Succeeded => 0,
        WaitView::Failed(_) => 0,
    }
}

/// A flow comes to an end: an event changes nothing, or takes it further. So a
/// call is made at most twice, and a session is renewed at most once.
pub proof fn law_flow_ends(f: FlowView, event: EventView)
    ensures
        f.after(event) == f || rank(f.after(event).wait) < rank(f.wait),
        f.after(event).policy == f.policy,
{
}

/// With a policy of renewal only, nothing is ever imported: an import that is
/// checked by a call cannot lead to another import.
pub proof fn law_refresh_only_never_imports(f: FlowView, event: EventView)
    requires
        f.policy == Recovery::RefreshOnly,
        !f.importing(),
    ensures
        !f.after(event).importing(),
{
}

/// Trying credentials never imports any, whatever happens meanwhile: after a
/// login the desktop app's files are not read again.
pub proof fn law_validation_never_imports(cache: Option<Seq<char>>, events: Seq<EventView>)
    ensures
        FlowView::begun(Recovery::RefreshOnly, cache).after_all(events).policy
            == Recovery::RefreshOnly,
        !FlowView::begun(Recovery::RefreshOnly, cache).after_all(events).importing(),
    decreases events.len(),
{
    if events.len() > 0 {
        let before = FlowView::begun(Recovery::RefreshOnly, cache).after_all(events.drop_last());
        law_validation_never_imports(cache, events.drop_last());
        law_refresh_only_never_imports(before, events.last());
    }
}

/// Credentials that the service rejects, and whose refresh token it rejects
/// too, end a trial with that rejection.
pub proof fn law_validation_ends_with_a_dead_session(
    token: Seq<char>,
    e: ErrorView,
    renewal: auth::ErrorView,
)
    requires
        api::is_unauthorized(e),
    ensures
        FlowView::begun(Recovery::RefreshOnly, Some(token)).after(EventView::CallFailed(e)).after(
            EventView::Refreshed(Err(renewal)),
        ).wait == WaitView::Failed(ErrorView::Auth(renewal)),
{
}

/// A cached client is used without reading the keychain.
pub proof fn law_cached_client_is_used(policy: Recovery, token: Seq<char>)
    ensures
        FlowView::begun(policy, Some(token)).wait == WaitView::FirstCall(token),
{
}

/// The first rejection leads to a renewal; the second is the end.
pub proof fn law_second_rejection_is_final(f: FlowView, token: Seq<char>, e: ErrorView)
    ensures
        f.wait == WaitView::FirstCall(token) && api::is_unauthorized(e) ==> f.after(
            EventView::CallFailed(e),
        ).wait == WaitView::Refresh(token),
        f.wait == WaitView::LastCall(token) ==> f.after(EventView::CallFailed(e)).wait
            == WaitView::Failed(e),
{
}

/// A renewal that failed for another reason than its refresh token leads to no
/// import: not one that failed on the network, nor one that the service
/// answered with a fault of its own.
pub proof fn law_transient_failure_does_not_import(
    f: FlowView,
    rejected: Seq<char>,
    e: auth::ErrorView,
)
    requires
        f.wait == WaitView::Refresh(rejected),
        !(e matches auth::ErrorView::RefreshRejected { status } && 400 <= status < 500),
        !(e is NoCredentials),
    ensures
        f.after(EventView::Refreshed(Err(e))).wait == WaitView::Failed(ErrorView::Auth(e)),
{
}

/// An import is begun only where it would not ask for the desktop app's own
/// keychain item, which could hold the call until a person answers.
pub proof fn law_import_never_blocks(f: FlowView, event: EventView)
    ensures
        f.after(event).wait is Login && !(f.wait is Login) ==> event == EventView::Probed(false),
{
}

/// The client of a call is always the one that the cache holds.
pub proof fn law_calls_use_the_cached_client(f: FlowView, event: EventView)
    requires
        f.wait matches WaitView::FirstCall(t) ==> f.cache == Some(t),
        f.wait matches WaitView::LastCall(t) ==> f.cache == Some(t),
    ensures
        f.after(event).wait matches WaitView::FirstCall(t) ==> f.after(event).cache == Some(t),
        f.after(event).wait matches WaitView::LastCall(t) ==> f.after(event).cache == Some(t),
{
}

/// Without a cached client the keychain is read, and the call is made with the
/// token that it holds.
pub proof fn law_kept_token_makes_the_call(policy: Recovery, c: CredentialsView, e: auth::ErrorView)
    ensures
        ({
            let f = FlowView::begun(policy, None);
            &&& f.wait == WaitView::Keychain
            &&& f.after(EventView::Stored(Ok(Some(c)))).wait == WaitView::FirstCall(c.access_token)
            &&& f.after(EventView::Stored(Ok(Some(c)))).cache == Some(c.access_token)
            &&& f.after(EventView::Stored(Err(e))).wait == WaitView::Failed(ErrorView::Auth(e))
            &&& f.after(EventView::Stored(Ok(None))).wait == (if policy
                == Recovery::RefreshThenReimport {
                WaitView::Probe(false)
            } else {
                WaitView::Failed(ErrorView::Unauthenticated)
            })
        }),
{
}

/// A call that succeeds ends the way. One that fails ends it too, unless the
/// service rejected the token for the first time: then the session is renewed.
pub proof fn law_only_a_rejection_is_mended(f: FlowView, token: Seq<char>, e: ErrorView)
    ensures
        f.wait == WaitView::FirstCall(token) || f.wait == WaitView::LastCall(token) ==> f.after(
            EventView::CallSucceeded,
        ).wait == WaitView::Succeeded && f.after(EventView::CallSucceeded).cache == f.cache,
        f.wait == WaitView::FirstCall(token) && (e matches ErrorView::Http { status, .. } && status
            == 401) ==> f.after(EventView::CallFailed(e)).wait == WaitView::Refresh(token),
        f.wait == WaitView::FirstCall(token) && !(e matches ErrorView::Http { status, .. } && status
            == 401) ==> f.after(EventView::CallFailed(e)).wait == WaitView::Failed(e),
        f.wait == WaitView::LastCall(token) ==> f.after(EventView::CallFailed(e)).wait
            == WaitView::Failed(e),
{
}

/// A renewed session makes the call for the last time, with the new token, which
/// is cached.
pub proof fn law_renewed_token_makes_the_last_call(
    f: FlowView,
    rejected: Seq<char>,
    c: CredentialsView,
)
    requires
        f.wait == WaitView::Refresh(rejected),
    ensures
        f.after(EventView::Refreshed(Ok(c))).wait == WaitView::LastCall(c.access_token),
        f.after(EventView::Refreshed(Ok(c))).cache == Some(c.access_token),
{
}

/// A refresh token that is dead, or missing, leads to an import where that is
/// allowed, but not before the keychain was read again: another process may have
/// renewed the session, and then its token makes the last call.
pub proof fn law_dead_token_leads_to_an_import(
    f: FlowView,
    rejected: Seq<char>,
    e: auth::ErrorView,
    c: CredentialsView,
)
    ensures
        f.wait == WaitView::Refresh(rejected) && f.policy == Recovery::RefreshThenReimport && ((
        e matches auth::ErrorView::RefreshRejected { status } && 400 <= status <= 499) || e
            == auth::ErrorView::NoCredentials) ==> f.after(EventView::Refreshed(Err(e))).wait
            == WaitView::Reread(rejected),
        f.wait == WaitView::Refresh(rejected) && f.policy == Recovery::RefreshOnly ==> f.after(
            EventView::Refreshed(Err(e)),
        ).wait == WaitView::Failed(ErrorView::Auth(e)),
        f.wait == WaitView::Reread(rejected) && c.access_token.len() > 0 && c.access_token
            != rejected ==> f.after(EventView::Stored(Ok(Some(c)))).wait == WaitView::LastCall(
            c.access_token,
        ) && f.after(EventView::Stored(Ok(Some(c)))).cache == Some(c.access_token),
        f.wait == WaitView::Reread(rejected) && (c.access_token.len() == 0 || c.access_token
            == rejected) ==> f.after(EventView::Stored(Ok(Some(c)))).wait == WaitView::Probe(true),
        f.wait == WaitView::Reread(rejected) ==> f.after(EventView::Stored(Ok(None))).wait
            == WaitView::Probe(true) && f.after(EventView::Stored(Err(e))).wait
            == WaitView::Failed(ErrorView::Auth(e)),
{
}

/// An import is begun only where it holds up no one; imported credentials make
/// the call, and a failed import is told.
pub proof fn law_imports_make_the_call(
    f: FlowView,
    last: bool,
    c: CredentialsView,
    e: auth::ErrorView,
)
    ensures
        f.wait == WaitView::Probe(last) ==> f.after(EventView::Probed(true)).wait
            == WaitView::Failed(ErrorView::NeedsKeychainApproval) && f.after(
            EventView::Probed(false),
        ).wait == WaitView::Login(last),
        f.wait == WaitView::Login(last) ==> f.after(EventView::LoggedIn(Ok(c))).wait == (if last {
            WaitView::LastCall(c.access_token)
        } else {
            WaitView::FirstCall(c.access_token)
        }) && f.after(EventView::LoggedIn(Ok(c))).cache == Some(c.access_token),
        f.wait == WaitView::Login(last) ==> f.after(EventView::LoggedIn(Err(e))).wait
            == WaitView::Failed(ErrorView::Auth(e)),
{
}

/// What was not waited for changes nothing, and a way that has ended stays
/// ended.
pub proof fn law_ended_flows_stay(f: FlowView, event: EventView)
    ensures
        f.wait is Succeeded || f.wait is Failed ==> f.after(event) == f,
        f.wait is Keychain && !(event is Stored) ==> f.after(event) == f,
        f.wait is Refresh && !(event is Refreshed) ==> f.after(event) == f,
        f.wait is Login && !(event is LoggedIn) ==> f.after(event) == f,
        f.wait is Probe && !(event is Probed) ==> f.after(event) == f,
{
}

/// A call is waited for until it succeeds or fails, and a second look at the
/// keychain until it is there.
pub proof fn law_calls_are_waited_for(f: FlowView, event: EventView)
    ensures
        f.wait is FirstCall && !(event is CallSucceeded) && !(event is CallFailed) ==> f.after(event)
            == f,
        f.wait is LastCall && !(event is CallSucceeded) && !(event is CallFailed) ==> f.after(event)
            == f,
        f.wait is Reread && !(event is Stored) ==> f.after(event) == f,
        f.importing() <==> f.wait is Reread || f.wait is Probe || f.wait is Login,
{
}

} // verus!
