//! Where a current Auth0 token comes from, and what a credential has been
//! spent on.
//!
//! An Endpoint Token lasts minutes, so a session that runs for hours keeps
//! issuing new ones, and each issue needs proof of who is asking.

use std::sync::Arc;
use vstd::prelude::*;

verus! {

/// Why a source could not answer.
#[derive(Debug)]
pub struct SourceError(pub String);

/// A source of Auth0 access tokens that are valid now.
///
/// Asked each time an Endpoint Token is issued, so an implementation should
/// return a cached token while it is still good.
pub trait Auth0TokenSource: Send + Sync {
    /// A token valid now, refreshed if the previous one has expired.
    fn auth0_token(&self) -> Result<String, SourceError>;
}

/// A source of workload identity assertions, one per audience.
pub trait AssertionSource: Send + Sync {
    /// An assertion that the service named by `audience` will accept.
    fn assertion(&self, audience: &str) -> Result<String, SourceError>;
}

/// A token that never changes.
pub struct StaticAuth0Token(pub String);

impl Auth0TokenSource for StaticAuth0Token {
    fn auth0_token(&self) -> (r: Result<String, SourceError>)
        ensures
            r == Ok::<String, SourceError>(self.0),
    {
        Ok(self.0.clone())
    }
}

/// A source that asks a function each time.
pub struct FromFn<F: Fn() -> Result<String, SourceError>> {
    f: F,
}

impl<F: Fn() -> Result<String, SourceError>> FromFn<F> {
    /// The function can be called at any time.
    #[verifier::type_invariant]
    spec fn callable(self) -> bool {
        call_requires(self.f, ())
    }

    /// The function that is asked.
    pub closed spec fn function(self) -> F {
        self.f
    }
}

impl<F: Fn() -> Result<String, SourceError> + Send + Sync> Auth0TokenSource for FromFn<F> {
    fn auth0_token(&self) -> (r: Result<String, SourceError>)
        ensures
            call_ensures(self.function(), (), r),
    {
        proof {
            use_type_invariant(self);
        }
        (self.f)()
    }
}

/// Wrap a function as a source; each question is one call of it.
pub fn from_fn<F: Fn() -> Result<String, SourceError>>(f: F) -> (source: FromFn<F>)
    requires
        call_requires(f, ()),
    ensures
        source.function() == f,
{
    FromFn { f }
}

/// How a session proves who it is to the Identity API.
pub enum Credential {
    /// A person's Auth0 sign-in.
    Auth0 {
        /// The token the session started with.
        token: String,
        /// Where a current one comes from; asked in place of `token`.
        source: Option<Arc<dyn Auth0TokenSource>>,
        /// Whether to register the Endpoint before the first issue.
        register: bool,
    },
    /// An Enrollment Key, for a job with nobody at the keyboard.
    Enrollment(Enrollment),
}

impl Credential {
    /// A person's sign-in.
    pub fn auth0(token: &str, source: Option<Arc<dyn Auth0TokenSource>>, register: bool) -> (c: Self)
        ensures
            c matches Credential::Auth0 { token: t, source: s, register: r } && t@ == token@ && s == source && r
                == register,
    {
        Credential::Auth0 { token: token.to_owned(), source, register }
    }

    /// An Enrollment Key with no further evidence.
    pub fn enrollment(key: &str) -> (c: Self)
        ensures
            c matches Credential::Enrollment(e) && e.key@ == key@ && e.assertion is None && e.auth0 is None,
    {
        Credential::Enrollment(Enrollment::new(key))
    }
}

/// An Enrollment Key, and the evidence that goes with it.
pub struct Enrollment {
    /// The key itself.
    pub key: String,
    /// Workload identity assertions, where the key is bound to one.
    pub assertion: Option<Arc<dyn AssertionSource>>,
    /// An Auth0 token beside the key, where the key asks for one.
    pub auth0: Option<Arc<dyn Auth0TokenSource>>,
}

impl Enrollment {
    /// A key with no further evidence.
    pub fn new(key: &str) -> (e: Self)
        ensures
            e.key@ == key@,
            e.assertion is None,
            e.auth0 is None,
    {
        Enrollment { key: key.to_owned(), assertion: None, auth0: None }
    }

    /// The same key, with a source of assertions.
    pub fn with_assertions(self, source: Arc<dyn AssertionSource>) -> (e: Self)
        ensures
            e.key == self.key,
            e.assertion matches Some(given) && given == source,
            e.auth0 == self.auth0,
    {
        let assertion = Some(source);
        Enrollment { key: self.key, assertion, auth0: self.auth0 }
    }

    /// The same key, with a source of Auth0 tokens.
    pub fn with_auth0(self, source: Arc<dyn Auth0TokenSource>) -> (e: Self)
        ensures
            e.key == self.key,
            e.assertion == self.assertion,
            e.auth0 matches Some(given) && given == source,
    {
        let auth0 = Some(source);
        Enrollment { key: self.key, assertion: self.assertion, auth0 }
    }
}

impl From<Enrollment> for Credential {
    fn from(enrollment: Enrollment) -> (c: Self) {
        Credential::Enrollment(enrollment)
    }
}

impl vstd::std_specs::convert::FromSpecImpl<Enrollment> for Credential {
    open spec fn obeys_from_spec() -> bool {
        true
    }

    open spec fn from_spec(enrollment: Enrollment) -> Self {
        Credential::Enrollment(enrollment)
    }
}

/// The Endpoint a credential was spent on.
#[derive(Debug)]
pub struct Registered {
    /// Its id, derived from the keypair.
    pub endpoint_id: String,
    /// Whether this run took an enrolment slot for it.
    pub by_us: bool,
}

/// What a credential has been spent on so far.
///
/// One per credential, shared by everything that uses it: a second enrolment
/// of the same keypair is refused, so whether to enrol or to renew is settled
/// here and not by asking the server.
#[derive(Debug)]
pub struct Registration {
    /// The Endpoint, once one is known to be registered.
    pub registered: Option<Registered>,
    /// Whether a registration was ever started.
    pub attempted: bool,
}

impl Registration {
    /// Nothing spent, nothing tried.
    pub fn new() -> (cell: Self)
        ensures
            cell.registered is None,
            !cell.attempted,
    {
        Registration { registered: None, attempted: false }
    }

    /// The Endpoint this credential registered, once it has.
    pub fn endpoint_id(&self) -> (id: Option<&str>)
        ensures
            match self.registered {
                Some(registered) => id matches Some(text) && text@ == registered.endpoint_id@,
                None => id is None,
            },
    {
        match &self.registered {
            Some(registered) => Some(registered.endpoint_id.as_str()),
            None => None,
        }
    }

    /// Whether this run took the slot, and so owes it back.
    pub fn registered_here(&self) -> (r: bool)
        ensures
            r == owes_slot(*self),
    {
        match &self.registered {
            Some(registered) => registered.by_us,
            None => false,
        }
    }

    /// Note that a registration is being started; returns whether one was before.
    pub fn mark_attempt(&mut self) -> (before: bool)
        ensures
            before == old(self).attempted,
            *final(self) == (Registration { attempted: true, ..*old(self) }),
    {
        let before = self.attempted;
        self.attempted = true;
        before
    }
}

/// Whether a slot was taken by this run.
pub open spec fn owes_slot(cell: Registration) -> bool {
    cell.registered matches Some(registered) && registered.by_us
}

} // verus!
