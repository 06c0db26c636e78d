//! Session configuration, and how an Endpoint Token is obtained and kept current.
//!
//! Obtaining a token takes several exchanges with the Identity API and with
//! the sources of the credential. [`issue_endpoint_token`] and [`issue_step`]
//! decide each of them: they say what to ask next, and are told what came back.

use crate::auth::{owes_slot, Credential, Enrollment, Registered, Registration};
use crate::duration::Duration;
use vstd::arithmetic::power2::{lemma2_to64, lemma_pow2_strictly_increases, pow2};
use vstd::prelude::*;

verus! {

/// What an Endpoint Token should be narrowed to.
#[derive(Debug)]
pub struct Narrowing {
    /// The permissions to keep; asked for once, at issue.
    pub permissions: Option<Vec<String>>,
    /// The protocols to keep; asked for once, at issue.
    pub protocols: Option<Vec<String>>,
    /// Which Gateways should hear about the Endpoint; sent again at each renewal.
    pub gateways: Option<Vec<String>>,
}

/// Everything a session needs to reach the services and identify itself.
pub struct P2pConfig {
    /// Identity API base URL.
    pub identity_url: String,
    /// Reach the Identity API over HTTP/3.
    pub identity_http3: bool,
    /// Proxy base URL.
    pub proxy_url: String,
    /// How this session proves who it is to the Identity API.
    pub credential: Credential,
    /// Protocol string.
    pub protocol: String,
    /// Device display name recorded at registration.
    pub device_name: Option<String>,
    /// Requested token lifetime in seconds; the server's default where absent.
    pub token_ttl: Option<i64>,
    /// The id of the Endpoint keypair.
    pub endpoint: String,
    /// What the token should be narrowed to.
    pub narrowing: Narrowing,
}

impl P2pConfig {
    /// This Endpoint's id, derived from its keypair.
    pub fn endpoint_id(&self) -> (id: String)
        ensures
            id == self.endpoint,
    {
        self.endpoint.clone()
    }
}

/// A token for the proxy's control plane.
#[derive(Debug)]
pub struct EndpointToken {
    /// The token.
    pub endpoint_token: String,
    /// Its lifetime in seconds.
    pub expires_in: i64,
    /// The Endpoint that it is for.
    pub endpoint_id: String,
    /// What it permits.
    pub permissions: Vec<String>,
    /// The protocols that it is good for.
    pub protocols: Vec<String>,
}

/// A failure that the Identity API, or the way to it, reported.
#[derive(Debug)]
pub struct IdentityError {
    /// The HTTP status, where there was an answer.
    pub status: Option<u16>,
    /// What was said.
    pub text: String,
}

/// A failure and what lies beneath it, outermost first.
#[derive(Debug)]
pub enum Failure {
    /// The Identity API refused, or could not be reached.
    Identity(IdentityError),
    /// Anything else.
    Other(String),
    /// What was being done when the inner failure happened.
    Context(String, Box<Failure>),
    /// An error of another kind that names the inner failure as its source.
    Caused(String, Box<Failure>),
}

impl Failure {
    /// The same failure, saying what was being done.
    pub fn context(self, doing: &str) -> (f: Failure)
        ensures
            f matches Failure::Context(text, inner) && text@ == doing@ && *inner == self,
    {
        Failure::Context(doing.to_owned(), Box::new(self))
    }

    /// What one layer says.
    pub open spec fn head(self) -> Seq<char> {
        match self {
            Failure::Identity(error) => error.text@,
            Failure::Other(text) => text@,
            Failure::Context(text, _) => text@,
            Failure::Caused(text, _) => text@,
        }
    }

    /// All the layers, outermost first, with `: ` between them.
    pub open spec fn message_spec(self) -> Seq<char>
        decreases self,
    {
        match self {
            Failure::Context(text, inner) => text@ + ": "@ + inner.message_spec(),
            Failure::Caused(text, inner) => text@ + ": "@ + inner.message_spec(),
            _ => self.head(),
        }
    }

    /// The failure in words.
    pub fn message(&self) -> (text: String)
        ensures
            text@ == self.message_spec(),
        decreases self,
    {
        match self {
            Failure::Identity(error) => error.text.clone(),
            Failure::Other(text) => text.clone(),
            Failure::Context(text, inner) => {
                let mut out = text.clone();
                out.push_str(": ");
                let rest = inner.message();
                out.push_str(rest.as_str());
                out
            },
            Failure::Caused(text, inner) => {
                let mut out = text.clone();
                out.push_str(": ");
                let rest = inner.message();
                out.push_str(rest.as_str());
                out
            },
        }
    }
}

/// The status of the refusal that asking again cannot change.
pub const FORBIDDEN: u16 = 403;

/// The status that says the Endpoint is already there.
pub const CONFLICT: u16 = 409;

/// Some layer is an Identity failure with status 403.
pub open spec fn is_permanent_spec(f: Failure) -> bool
    decreases f,
{
    match f {
        Failure::Identity(error) => error.status == Some(FORBIDDEN),
        Failure::Other(_) => false,
        Failure::Context(_, inner) => is_permanent_spec(*inner),
        Failure::Caused(_, inner) => is_permanent_spec(*inner),
    }
}

/// Whether no retry can bring a different answer: a rule refused, and asking
/// again asks the same rule.
pub fn is_permanent(error: &Failure) -> (r: bool)
    ensures
        r == is_permanent_spec(*error),
    decreases error,
{
    match error {
        Failure::Identity(error) => match error.status {
            Some(status) => status == FORBIDDEN,
            None => false,
        },
        Failure::Other(_) => false,
        Failure::Context(_, inner) => is_permanent(inner),
        Failure::Caused(_, inner) => is_permanent(inner),
    }
}

/// Beneath its context, the failure is an Identity failure with status 409.
pub open spec fn already_registered_spec(f: Failure) -> bool
    decreases f,
{
    match f {
        Failure::Identity(error) => error.status == Some(CONFLICT),
        Failure::Context(_, inner) => already_registered_spec(*inner),
        _ => false,
    }
}

/// Whether the Identity API said that the Endpoint is already registered.
pub fn already_registered(error: &Failure) -> (r: bool)
    ensures
        r == already_registered_spec(*error),
    decreases error,
{
    match error {
        Failure::Identity(error) => match error.status {
            Some(status) => status == CONFLICT,
            None => false,
        },
        Failure::Context(_, inner) => already_registered(inner),
        Failure::Other(_) => false,
        Failure::Caused(_, _) => false,
    }
}

/// The audience that the Identity API checks an assertion against.
pub const IDENTITY_AUDIENCE: &'static str = "isekai-identity";

/// A one-time challenge to be answered with the keypair.
#[derive(Debug)]
pub struct Challenge {
    /// Names the challenge.
    pub challenge_id: String,
    /// What is to be signed.
    pub challenge: String,
}

/// What to ask next.
#[allow(inconsistent_fields)]
pub enum Request<'a> {
    /// The credential's source for a current Auth0 token.
    Auth0Token,
    /// The credential's source for an assertion.
    Assertion { audience: &'static str },
    /// A registration challenge.
    RegisterChallenge { auth0: String },
    /// The registration itself.
    Register { auth0: String, challenge: Challenge, device_name: &'a Option<String> },
    /// A token for a registered Endpoint.
    IssueToken { auth0: String, narrowing: &'a Narrowing, ttl: Option<i64> },
    /// An enrolment challenge; it takes no assertion.
    EnrollChallenge { key: &'a String, auth0: Option<String> },
    /// The enrolment itself, which answers with the first token.
    Enroll {
        key: &'a String,
        assertion: Option<String>,
        auth0: Option<String>,
        challenge: Challenge,
        device_name: &'a Option<String>,
        ttl: Option<i64>,
    },
    /// A renewal challenge; it takes no assertion.
    RefreshChallenge { key: &'a String, auth0: Option<String>, endpoint_id: &'a String },
    /// The renewal itself.
    RefreshToken {
        key: &'a String,
        assertion: Option<String>,
        auth0: Option<String>,
        challenge: Challenge,
        gateways: &'a Option<Vec<String>>,
        ttl: Option<i64>,
    },
}

/// What came back.
pub enum Reply {
    /// An Auth0 token or an assertion.
    Text(String),
    /// A challenge.
    Challenge(Challenge),
    /// The registration was accepted.
    Registered,
    /// A token.
    Token(EndpointToken),
    /// The question failed.
    Failed(Failure),
}

/// Which question is open, and what the following ones need.
#[allow(inconsistent_fields)]
pub enum Stage {
    /// An Auth0 token, for a person's sign-in.
    Auth0Token,
    /// A registration challenge.
    RegisterChallenge { auth0: String },
    /// The registration.
    Register { auth0: String },
    /// The token of a registered Endpoint.
    Issue,
    /// An Auth0 token, to enrol with.
    EnrolAuth0 { attempted_before: bool },
    /// An assertion, to enrol with.
    EnrolAssertion { attempted_before: bool, auth0: Option<String> },
    /// An enrolment challenge.
    EnrolChallenge { attempted_before: bool, auth0: Option<String>, assertion: Option<String> },
    /// The enrolment.
    Enrol { attempted_before: bool },
    /// An Auth0 token, to renew with.
    RefreshAuth0,
    /// An assertion, to renew with.
    RefreshAssertion { auth0: Option<String> },
    /// A renewal challenge.
    RefreshChallenge { auth0: Option<String>, assertion: Option<String> },
    /// The renewal.
    Refresh,
}

/// What was being done when an attempt failed.
#[derive(Debug)]
pub enum Doing {
    /// Asking the source for an Auth0 token.
    Auth0Token,
    /// Asking the source for an assertion.
    Assertion,
    /// Asking for an enrolment challenge.
    EnrollChallenge,
    /// Enrolling.
    Enroll,
    /// Asking for a renewal challenge.
    RefreshChallenge,
    /// Renewing.
    Refresh,
}

/// Why no token was obtained.
#[derive(Debug)]
pub enum IssueError {
    /// A question failed.
    Failed(Option<Doing>, Failure),
    /// A person's credential was already spent on another keypair.
    RegisteredElsewhere { registered: String, carried: String },
    /// An Enrollment Key credential was already spent on another keypair.
    EnrolledElsewhere { enrolled: String, carried: String },
}

/// What is to be done next.
pub enum Step<'a> {
    /// Ask, and hand the answer to [`issue_step`] with this stage.
    Ask(Stage, Request<'a>),
    /// The attempt is over.
    Done(Result<EndpointToken, IssueError>),
}

/// The answers that a question can have.
pub open spec fn answers(stage: Stage, reply: Reply) -> bool {
    match stage {
        Stage::Auth0Token | Stage::EnrolAuth0 { .. } | Stage::EnrolAssertion { .. } | Stage::RefreshAuth0
        | Stage::RefreshAssertion { .. } => reply is Text || reply is Failed,
        Stage::RegisterChallenge { .. } | Stage::EnrolChallenge { .. } | Stage::RefreshChallenge { .. } => reply is Challenge
            || reply is Failed,
        Stage::Register { .. } => reply is Registered || reply is Failed,
        Stage::Issue | Stage::Enrol { .. } | Stage::Refresh => reply is Token || reply is Failed,
    }
}

/// The stages of a person's sign-in.
pub open spec fn attended(stage: Stage) -> bool {
    stage is Auth0Token || stage is RegisterChallenge || stage is Register || stage is Issue
}

/// The stage belongs to the kind of credential that the configuration holds.
pub open spec fn belongs(cfg: P2pConfig, stage: Stage) -> bool {
    attended(stage) <==> cfg.credential is Auth0
}

/// Ask for the token of a registered Endpoint.
pub open spec fn issue_spec<'a>(cfg: &'a P2pConfig, auth0: String) -> Step<'a> {
    Step::Ask(Stage::Issue, Request::IssueToken { auth0, narrowing: &cfg.narrowing, ttl: cfg.token_ttl })
}

/// The credential is spent on `endpoint_id`: issue if that is this keypair.
pub open spec fn issue_for_spec<'a>(cfg: &'a P2pConfig, auth0: String, endpoint_id: String) -> Step<'a> {
    if endpoint_id@ == cfg.endpoint@ {
        issue_spec(cfg, auth0)
    } else {
        Step::Done(Err(IssueError::RegisteredElsewhere { registered: endpoint_id, carried: cfg.endpoint }))
    }
}

/// What a person's sign-in does once it has a token.
pub open spec fn with_auth0_spec<'a>(cfg: &'a P2pConfig, cell: Registration, auth0: String, register: bool) -> Step<'a> {
    if !register {
        issue_spec(cfg, auth0)
    } else {
        match cell.registered {
            Some(registered) => issue_for_spec(cfg, auth0, registered.endpoint_id),
            None => Step::Ask(Stage::RegisterChallenge { auth0 }, Request::RegisterChallenge { auth0 }),
        }
    }
}

/// Renew: an Auth0 token first, where the credential has a source of them.
pub open spec fn refresh_spec<'a>(enrollment: &'a Enrollment, endpoint_id: &'a String) -> Step<'a> {
    if enrollment.auth0 is Some {
        Step::Ask(Stage::RefreshAuth0, Request::Auth0Token)
    } else {
        refresh_with_auth0_spec(enrollment, endpoint_id, None)
    }
}

/// Renew: then an assertion, where the credential has a source of them.
pub open spec fn refresh_with_auth0_spec<'a>(
    enrollment: &'a Enrollment,
    endpoint_id: &'a String,
    auth0: Option<String>,
) -> Step<'a> {
    if enrollment.assertion is Some {
        Step::Ask(Stage::RefreshAssertion { auth0 }, Request::Assertion { audience: IDENTITY_AUDIENCE })
    } else {
        refresh_challenge_spec(enrollment, endpoint_id, auth0, None)
    }
}

/// Renew: then the challenge, which takes no assertion.
pub open spec fn refresh_challenge_spec<'a>(
    enrollment: &'a Enrollment,
    endpoint_id: &'a String,
    auth0: Option<String>,
    assertion: Option<String>,
) -> Step<'a> {
    Step::Ask(
        Stage::RefreshChallenge { auth0, assertion },
        Request::RefreshChallenge { key: &enrollment.key, auth0, endpoint_id },
    )
}

/// Enrol: an Auth0 token first, where the credential has a source of them.
pub open spec fn enrol_spec<'a>(enrollment: &'a Enrollment, attempted_before: bool) -> Step<'a> {
    if enrollment.auth0 is Some {
        Step::Ask(Stage::EnrolAuth0 { attempted_before }, Request::Auth0Token)
    } else {
        enrol_with_auth0_spec(enrollment, attempted_before, None)
    }
}

/// Enrol: then an assertion, where the credential has a source of them.
pub open spec fn enrol_with_auth0_spec<'a>(
    enrollment: &'a Enrollment,
    attempted_before: bool,
    auth0: Option<String>,
) -> Step<'a> {
    if enrollment.assertion is Some {
        Step::Ask(
            Stage::EnrolAssertion { attempted_before, auth0 },
            Request::Assertion { audience: IDENTITY_AUDIENCE },
        )
    } else {
        enrol_challenge_spec(enrollment, attempted_before, auth0, None)
    }
}

/// Enrol: then the challenge, which takes no assertion.
pub open spec fn enrol_challenge_spec<'a>(
    enrollment: &'a Enrollment,
    attempted_before: bool,
    auth0: Option<String>,
    assertion: Option<String>,
) -> Step<'a> {
    Step::Ask(
        Stage::EnrolChallenge { attempted_before, auth0, assertion },
        Request::EnrollChallenge { key: &enrollment.key, auth0 },
    )
}

/// The key is spent on `endpoint_id`: renew if that is this keypair.
pub open spec fn renew_for_spec<'a>(cfg: &'a P2pConfig, enrollment: &'a Enrollment, endpoint_id: String) -> Step<'a> {
    if endpoint_id@ == cfg.endpoint@ {
        refresh_spec(enrollment, &cfg.endpoint)
    } else {
        Step::Done(Err(IssueError::EnrolledElsewhere { enrolled: endpoint_id, carried: cfg.endpoint }))
    }
}

/// How an attempt begins, and what the credential is then known to be spent on.
pub open spec fn start_spec<'a>(cfg: &'a P2pConfig, cell: Registration) -> (Registration, Step<'a>) {
    match &cfg.credential {
        Credential::Auth0 { token, source, register } => {
            if source is Some {
                (cell, Step::Ask(Stage::Auth0Token, Request::Auth0Token))
            } else {
                (cell, with_auth0_spec(cfg, cell, *token, *register))
            }
        },
        Credential::Enrollment(enrollment) => match cell.registered {
            Some(registered) => (cell, renew_for_spec(cfg, enrollment, registered.endpoint_id)),
            None => (Registration { attempted: true, ..cell }, enrol_spec(enrollment, cell.attempted)),
        },
    }
}

/// The keypair of `cfg` is registered, and whether this run took the slot.
pub open spec fn settled(cfg: P2pConfig, cell: Registration, by_us: bool) -> Registration {
    Registration { registered: Some(Registered { endpoint_id: cfg.endpoint, by_us }), ..cell }
}

/// A failed attempt.
pub open spec fn failed_spec<'a>(doing: Option<Doing>, f: Failure) -> Step<'a> {
    Step::Done(Err(IssueError::Failed(doing, f)))
}

/// What follows an answer in a person's sign-in.
pub open spec fn attended_step_spec<'a>(cfg: &'a P2pConfig, cell: Registration, stage: Stage, reply: Reply) -> (
    Registration,
    Step<'a>,
) {
    let register = cfg.credential->register;
    match (stage, reply) {
        (Stage::Auth0Token, Reply::Text(auth0)) => (cell, with_auth0_spec(cfg, cell, auth0, register)),
        (Stage::Auth0Token, Reply::Failed(f)) => (cell, failed_spec(Some(Doing::Auth0Token), f)),
        (Stage::RegisterChallenge { auth0 }, Reply::Challenge(challenge)) => (
            Registration { attempted: true, ..cell },
            Step::Ask(
                Stage::Register { auth0 },
                Request::Register { auth0, challenge, device_name: &cfg.device_name },
            ),
        ),
        (Stage::Register { auth0 }, Reply::Registered) => (settled(*cfg, cell, false), issue_spec(cfg, auth0)),
        (Stage::RegisterChallenge { auth0 }, Reply::Failed(f)) | (Stage::Register { auth0 }, Reply::Failed(f)) => {
            if already_registered_spec(f) {
                (settled(*cfg, cell, false), issue_spec(cfg, auth0))
            } else {
                (cell, failed_spec(None, f))
            }
        },
        (Stage::Issue, Reply::Token(token)) => (cell, Step::Done(Ok(token))),
        (_, Reply::Failed(f)) => (cell, failed_spec(None, f)),
        _ => arbitrary(),
    }
}

/// A failure while enrolling: an Endpoint that is already there is renewed,
/// and is this run's own where an earlier attempt of it may have made it.
pub open spec fn enrol_failed_spec<'a>(
    cfg: &'a P2pConfig,
    cell: Registration,
    attempted_before: bool,
    doing: Doing,
    f: Failure,
) -> (Registration, Step<'a>) {
    if already_registered_spec(f) {
        (settled(*cfg, cell, attempted_before), refresh_spec(&cfg.credential->0, &cfg.endpoint))
    } else {
        (cell, failed_spec(Some(doing), f))
    }
}

/// What follows an answer with an Enrollment Key.
pub open spec fn unattended_step_spec<'a>(cfg: &'a P2pConfig, cell: Registration, stage: Stage, reply: Reply) -> (
    Registration,
    Step<'a>,
) {
    let enrollment = &cfg.credential->0;
    match (stage, reply) {
        (Stage::EnrolAuth0 { attempted_before }, Reply::Text(auth0)) => (
            cell,
            enrol_with_auth0_spec(enrollment, attempted_before, Some(auth0)),
        ),
        (Stage::EnrolAuth0 { attempted_before }, Reply::Failed(f)) => enrol_failed_spec(
            cfg,
            cell,
            attempted_before,
            Doing::Auth0Token,
            f,
        ),
        (Stage::EnrolAssertion { attempted_before, auth0 }, Reply::Text(assertion)) => (
            cell,
            enrol_challenge_spec(enrollment, attempted_before, auth0, Some(assertion)),
        ),
        (Stage::EnrolAssertion { attempted_before, .. }, Reply::Failed(f)) => enrol_failed_spec(
            cfg,
            cell,
            attempted_before,
            Doing::Assertion,
            f,
        ),
        (Stage::EnrolChallenge { attempted_before, auth0, assertion }, Reply::Challenge(challenge)) => (
            cell,
            Step::Ask(
                Stage::Enrol { attempted_before },
                Request::Enroll {
                    key: &enrollment.key,
                    assertion,
                    auth0,
                    challenge,
                    device_name: &cfg.device_name,
                    ttl: cfg.token_ttl,
                },
            ),
        ),
        (Stage::EnrolChallenge { attempted_before, .. }, Reply::Failed(f)) => enrol_failed_spec(
            cfg,
            cell,
            attempted_before,
            Doing::EnrollChallenge,
            f,
        ),
        (Stage::Enrol { .. }, Reply::Token(token)) => (settled(*cfg, cell, true), Step::Done(Ok(token))),
        (Stage::Enrol { attempted_before }, Reply::Failed(f)) => enrol_failed_spec(
            cfg,
            cell,
            attempted_before,
            Doing::Enroll,
            f,
        ),
        (Stage::RefreshAuth0, Reply::Text(auth0)) => (
            cell,
            refresh_with_auth0_spec(enrollment, &cfg.endpoint, Some(auth0)),
        ),
        (Stage::RefreshAuth0, Reply::Failed(f)) => (cell, failed_spec(Some(Doing::Auth0Token), f)),
        (Stage::RefreshAssertion { auth0 }, Reply::Text(assertion)) => (
            cell,
            refresh_challenge_spec(enrollment, &cfg.endpoint, auth0, Some(assertion)),
        ),
        (Stage::RefreshAssertion { .. }, Reply::Failed(f)) => (cell, failed_spec(Some(Doing::Assertion), f)),
        (Stage::RefreshChallenge { auth0, assertion }, Reply::Challenge(challenge)) => (
            cell,
            Step::Ask(
                Stage::Refresh,
                Request::RefreshToken {
                    key: &enrollment.key,
                    assertion,
                    auth0,
                    challenge,
                    gateways: &cfg.narrowing.gateways,
                    ttl: cfg.token_ttl,
                },
            ),
        ),
        (Stage::RefreshChallenge { .. }, Reply::Failed(f)) => (
            cell,
            failed_spec(Some(Doing::RefreshChallenge), f),
        ),
        (Stage::Refresh, Reply::Token(token)) => (cell, Step::Done(Ok(token))),
        (Stage::Refresh, Reply::Failed(f)) => (cell, failed_spec(Some(Doing::Refresh), f)),
        _ => arbitrary(),
    }
}

/// What follows an answer.
pub open spec fn step_spec<'a>(cfg: &'a P2pConfig, cell: Registration, stage: Stage, reply: Reply) -> (
    Registration,
    Step<'a>,
) {
    if attended(stage) {
        attended_step_spec(cfg, cell, stage, reply)
    } else {
        unattended_step_spec(cfg, cell, stage, reply)
    }
}

fn issue<'a>(cfg: &'a P2pConfig, auth0: String) -> (r: Step<'a>)
    ensures
        r == issue_spec(cfg, auth0),
{
    Step::Ask(Stage::Issue, Request::IssueToken { auth0, narrowing: &cfg.narrowing, ttl: cfg.token_ttl })
}

fn with_auth0<'a>(cfg: &'a P2pConfig, cell: &Registration, auth0: String, register: bool) -> (r: Step<'a>)
    ensures
        r == with_auth0_spec(cfg, *cell, auth0, register),
{
    if !register {
        return issue(cfg, auth0);
    }
    match &cell.registered {
        Some(registered) => {
            if registered.endpoint_id == cfg.endpoint {
                issue(cfg, auth0)
            } else {
                Step::Done(
                    Err(
                        IssueError::RegisteredElsewhere {
                            registered: registered.endpoint_id.clone(),
                            carried: cfg.endpoint.clone(),
                        },
                    ),
                )
            }
        },
        None => Step::Ask(
            Stage::RegisterChallenge { auth0: auth0.clone() },
            Request::RegisterChallenge { auth0 },
        ),
    }
}

fn refresh<'a>(enrollment: &'a Enrollment, endpoint_id: &'a String) -> (r: Step<'a>)
    ensures
        r == refresh_spec(enrollment, endpoint_id),
{
    if enrollment.auth0.is_some() {
        Step::Ask(Stage::RefreshAuth0, Request::Auth0Token)
    } else {
        refresh_with_auth0(enrollment, endpoint_id, None)
    }
}

fn refresh_with_auth0<'a>(enrollment: &'a Enrollment, endpoint_id: &'a String, auth0: Option<String>) -> (r: Step<'a>)
    ensures
        r == refresh_with_auth0_spec(enrollment, endpoint_id, auth0),
{
    if enrollment.assertion.is_some() {
        Step::Ask(Stage::RefreshAssertion { auth0 }, Request::Assertion { audience: IDENTITY_AUDIENCE })
    } else {
        refresh_challenge(enrollment, endpoint_id, auth0, None)
    }
}

fn refresh_challenge<'a>(
    enrollment: &'a Enrollment,
    endpoint_id: &'a String,
    auth0: Option<String>,
    assertion: Option<String>,
) -> (r: Step<'a>)
    ensures
        r == refresh_challenge_spec(enrollment, endpoint_id, auth0, assertion),
{
    Step::Ask(
        Stage::RefreshChallenge { auth0: auth0.clone(), assertion },
        Request::RefreshChallenge { key: &enrollment.key, auth0, endpoint_id },
    )
}

fn enrol<'a>(enrollment: &'a Enrollment, attempted_before: bool) -> (r: Step<'a>)
    ensures
        r == enrol_spec(enrollment, attempted_before),
{
    if enrollment.auth0.is_some() {
        Step::Ask(Stage::EnrolAuth0 { attempted_before }, Request::Auth0Token)
    } else {
        enrol_with_auth0(enrollment, attempted_before, None)
    }
}

fn enrol_with_auth0<'a>(enrollment: &'a Enrollment, attempted_before: bool, auth0: Option<String>) -> (r: Step<'a>)
    ensures
        r == enrol_with_auth0_spec(enrollment, attempted_before, auth0),
{
    if enrollment.assertion.is_some() {
        Step::Ask(
            Stage::EnrolAssertion { attempted_before, auth0 },
            Request::Assertion { audience: IDENTITY_AUDIENCE },
        )
    } else {
        enrol_challenge(enrollment, attempted_before, auth0, None)
    }
}

fn enrol_challenge<'a>(
    enrollment: &'a Enrollment,
    attempted_before: bool,
    auth0: Option<String>,
    assertion: Option<String>,
) -> (r: Step<'a>)
    ensures
        r == enrol_challenge_spec(enrollment, attempted_before, auth0, assertion),
{
    Step::Ask(
        Stage::EnrolChallenge { attempted_before, auth0: auth0.clone(), assertion },
        Request::EnrollChallenge { key: &enrollment.key, auth0 },
    )
}

/// Begin to obtain an Endpoint Token.
///
/// A person's sign-in asks its source for a current token first, and only
/// without a source uses the token it started with. An Enrollment Key enrols
/// the first time and renews from then on.
///
/// Callers that share `cell` at the same time take turns, as [`Turns`] says.
pub fn issue_endpoint_token<'a>(cfg: &'a P2pConfig, cell: &mut Registration) -> (r: Step<'a>)
    ensures
        (*final(cell), r) == start_spec(cfg, *old(cell)),
{
    match &cfg.credential {
        Credential::Auth0 { token, source, register } => {
            if source.is_some() {
                Step::Ask(Stage::Auth0Token, Request::Auth0Token)
            } else {
                with_auth0(cfg, cell, token.clone(), *register)
            }
        },
        Credential::Enrollment(enrollment) => {
            match &cell.registered {
                Some(registered) => {
                    if registered.endpoint_id == cfg.endpoint {
                        refresh(enrollment, &cfg.endpoint)
                    } else {
                        Step::Done(
                            Err(
                                IssueError::EnrolledElsewhere {
                                    enrolled: registered.endpoint_id.clone(),
                                    carried: cfg.endpoint.clone(),
                                },
                            ),
                        )
                    }
                },
                None => {
                    let attempted_before = cell.mark_attempt();
                    enrol(enrollment, attempted_before)
                },
            }
        },
    }
}

fn settle(cfg: &P2pConfig, cell: &mut Registration, by_us: bool)
    ensures
        *final(cell) == settled(*cfg, *old(cell), by_us),
{
    cell.registered = Some(Registered { endpoint_id: cfg.endpoint.clone(), by_us });
}

fn enrol_failed<'a>(
    cfg: &'a P2pConfig,
    enrollment: &'a Enrollment,
    cell: &mut Registration,
    attempted_before: bool,
    doing: Doing,
    f: Failure,
) -> (r: Step<'a>)
    requires
        cfg.credential == Credential::Enrollment(*enrollment),
    ensures
        (*final(cell), r) == enrol_failed_spec(cfg, *old(cell), attempted_before, doing, f),
{
    if already_registered(&f) {
        settle(cfg, cell, attempted_before);
        refresh(enrollment, &cfg.endpoint)
    } else {
        Step::Done(Err(IssueError::Failed(Some(doing), f)))
    }
}

/// A person's sign-in, after an answer: register once where that was asked
/// for, then issue.
fn attended_step<'a>(cfg: &'a P2pConfig, register: bool, cell: &mut Registration, stage: Stage, reply: Reply) -> (r:
    Step<'a>)
    requires
        answers(stage, reply),
        attended(stage),
        cfg.credential matches Credential::Auth0 { register: given, .. } && given == register,
    ensures
        (*final(cell), r) == attended_step_spec(cfg, *old(cell), stage, reply),
{
    match (stage, reply) {
        (Stage::Auth0Token, Reply::Text(auth0)) => with_auth0(cfg, cell, auth0, register),
        (Stage::Auth0Token, Reply::Failed(f)) => Step::Done(Err(IssueError::Failed(Some(Doing::Auth0Token), f))),
        (Stage::RegisterChallenge { auth0 }, Reply::Challenge(challenge)) => {
            cell.mark_attempt();
            Step::Ask(
                Stage::Register { auth0: auth0.clone() },
                Request::Register { auth0, challenge, device_name: &cfg.device_name },
            )
        },
        (Stage::Register { auth0 }, Reply::Registered) => {
            settle(cfg, cell, false);
            issue(cfg, auth0)
        },
        (Stage::RegisterChallenge { auth0 }, Reply::Failed(f)) | (Stage::Register { auth0 }, Reply::Failed(f)) => {
            if already_registered(&f) {
                settle(cfg, cell, false);
                issue(cfg, auth0)
            } else {
                Step::Done(Err(IssueError::Failed(None, f)))
            }
        },
        (Stage::Issue, Reply::Token(token)) => Step::Done(Ok(token)),
        (_, Reply::Failed(f)) => Step::Done(Err(IssueError::Failed(None, f))),
        _ => {
            proof {
                assert(false);
            }
            Step::Ask(Stage::Issue, Request::Auth0Token)
        },
    }
}

/// An Enrollment Key, after an answer: enrol once, and renew from then on.
///
/// The Auth0 token and the assertion are obtained before each challenge, which
/// is good for one use and a short while only.
pub fn unattended<'a>(
    cfg: &'a P2pConfig,
    enrollment: &'a Enrollment,
    cell: &mut Registration,
    stage: Stage,
    reply: Reply,
) -> (r: Step<'a>)
    requires
        answers(stage, reply),
        !attended(stage),
        cfg.credential == Credential::Enrollment(*enrollment),
    ensures
        (*final(cell), r) == unattended_step_spec(cfg, *old(cell), stage, reply),
{
    match (stage, reply) {
        (Stage::EnrolAuth0 { attempted_before }, Reply::Text(auth0)) => enrol_with_auth0(
            enrollment,
            attempted_before,
            Some(auth0),
        ),
        (Stage::EnrolAuth0 { attempted_before }, Reply::Failed(f)) => enrol_failed(
            cfg,
            enrollment,
            cell,
            attempted_before,
            Doing::Auth0Token,
            f,
        ),
        (Stage::EnrolAssertion { attempted_before, auth0 }, Reply::Text(assertion)) => enrol_challenge(
            enrollment,
            attempted_before,
            auth0,
            Some(assertion),
        ),
        (Stage::EnrolAssertion { attempted_before, auth0: _ }, Reply::Failed(f)) => enrol_failed(
            cfg,
            enrollment,
            cell,
            attempted_before,
            Doing::Assertion,
            f,
        ),
        (Stage::EnrolChallenge { attempted_before, auth0, assertion }, Reply::Challenge(challenge)) => Step::Ask(
            Stage::Enrol { attempted_before },
            Request::Enroll {
                key: &enrollment.key,
                assertion,
                auth0,
                challenge,
                device_name: &cfg.device_name,
                ttl: cfg.token_ttl,
            },
        ),
        (Stage::EnrolChallenge { attempted_before, auth0: _, assertion: _ }, Reply::Failed(f)) => enrol_failed(
            cfg,
            enrollment,
            cell,
            attempted_before,
            Doing::EnrollChallenge,
            f,
        ),
        (Stage::Enrol { attempted_before: _ }, Reply::Token(token)) => {
            settle(cfg, cell, true);
            Step::Done(Ok(token))
        },
        (Stage::Enrol { attempted_before }, Reply::Failed(f)) => enrol_failed(
            cfg,
            enrollment,
            cell,
            attempted_before,
            Doing::Enroll,
            f,
        ),
        (Stage::RefreshAuth0, Reply::Text(auth0)) => refresh_with_auth0(enrollment, &cfg.endpoint, Some(auth0)),
        (Stage::RefreshAuth0, Reply::Failed(f)) => Step::Done(Err(IssueError::Failed(Some(Doing::Auth0Token), f))),
        (Stage::RefreshAssertion { auth0 }, Reply::Text(assertion)) => refresh_challenge(
            enrollment,
            &cfg.endpoint,
            auth0,
            Some(assertion),
        ),
        (Stage::RefreshAssertion { auth0: _ }, Reply::Failed(f)) => Step::Done(
            Err(IssueError::Failed(Some(Doing::Assertion), f)),
        ),
        (Stage::RefreshChallenge { auth0, assertion }, Reply::Challenge(challenge)) => Step::Ask(
            Stage::Refresh,
            Request::RefreshToken {
                key: &enrollment.key,
                assertion,
                auth0,
                challenge,
                gateways: &cfg.narrowing.gateways,
                ttl: cfg.token_ttl,
            },
        ),
        (Stage::RefreshChallenge { auth0: _, assertion: _ }, Reply::Failed(f)) => Step::Done(
            Err(IssueError::Failed(Some(Doing::RefreshChallenge), f)),
        ),
        (Stage::Refresh, Reply::Token(token)) => Step::Done(Ok(token)),
        (Stage::Refresh, Reply::Failed(f)) => Step::Done(Err(IssueError::Failed(Some(Doing::Refresh), f))),
        _ => {
            proof {
                assert(false);
            }
            Step::Ask(Stage::Refresh, Request::Auth0Token)
        },
    }
}

/// Go on with an attempt, after an answer.
pub fn issue_step<'a>(cfg: &'a P2pConfig, cell: &mut Registration, stage: Stage, reply: Reply) -> (r: Step<'a>)
    requires
        answers(stage, reply),
        belongs(*cfg, stage),
    ensures
        (*final(cell), r) == step_spec(cfg, *old(cell), stage, reply),
        reply matches Reply::Challenge(received) ==> (r matches Step::Ask(_, request) && challenge_of(request) == Some(received)),
{
    match &cfg.credential {
        Credential::Auth0 { token: _, source: _, register } => attended_step(cfg, *register, cell, stage, reply),
        Credential::Enrollment(enrollment) => unattended(cfg, enrollment, cell, stage, reply),
    }
}

/// How an Enrollment Key credential that was spent on another keypair is refused.
pub open spec fn enrolled_elsewhere_text(enrolled: Seq<char>, carried: Seq<char>) -> Seq<char> {
    "this Enrollment Key credential already enrolled "@ + enrolled + ", but this config carries "@ + carried
        + ". One key registers one Endpoint per keypair \u{2014} give each keypair its own Credential."@
}

/// `part` stands somewhere in `text`.
pub open spec fn holds_text(text: Seq<char>, part: Seq<char>) -> bool {
    exists|i: int|
        #![trigger text.subrange(i, i + part.len())]
        0 <= i <= text.len() - part.len() && text.subrange(i, i + part.len()) == part
}

impl IssueError {
    /// What was being done, in words.
    pub open spec fn doing_text(doing: Doing) -> Seq<char> {
        match doing {
            Doing::Auth0Token => "could not obtain a current Auth0 token"@,
            Doing::Assertion => "could not mint a workload identity token for the Identity API"@,
            Doing::EnrollChallenge => "could not obtain an enrolment challenge"@,
            Doing::Enroll => "could not enrol this Endpoint"@,
            Doing::RefreshChallenge => "could not obtain a renewal challenge"@,
            Doing::Refresh => "could not renew the endpoint token"@,
        }
    }

    /// The error as a failure with its context.
    pub fn into_failure(self) -> (f: Failure)
        ensures
            match self {
                IssueError::Failed(Some(doing), inner) => f matches Failure::Context(text, below) && text@
                    == Self::doing_text(doing) && *below == inner,
                IssueError::Failed(None, inner) => f == inner,
                IssueError::RegisteredElsewhere { registered, carried } => f matches Failure::Other(text) && text@
                    == "this credential already registered "@ + registered@ + ", but this config carries "@ + carried@
                    + ". Give each keypair its own Credential."@,
                IssueError::EnrolledElsewhere { enrolled, carried } => f matches Failure::Other(text) && text@
                    == enrolled_elsewhere_text(enrolled@, carried@),
            },
    {
        match self {
            IssueError::Failed(Some(doing), inner) => {
                let text = match doing {
                    Doing::Auth0Token => "could not obtain a current Auth0 token",
                    Doing::Assertion => "could not mint a workload identity token for the Identity API",
                    Doing::EnrollChallenge => "could not obtain an enrolment challenge",
                    Doing::Enroll => "could not enrol this Endpoint",
                    Doing::RefreshChallenge => "could not obtain a renewal challenge",
                    Doing::Refresh => "could not renew the endpoint token",
                };
                inner.context(text)
            },
            IssueError::Failed(None, inner) => inner,
            IssueError::RegisteredElsewhere { registered, carried } => {
                let mut text = "this credential already registered ".to_owned();
                text.push_str(registered.as_str());
                text.push_str(", but this config carries ");
                text.push_str(carried.as_str());
                text.push_str(". Give each keypair its own Credential.");
                Failure::Other(text)
            },
            IssueError::EnrolledElsewhere { enrolled, carried } => {
                let mut text = "this Enrollment Key credential already enrolled ".to_owned();
                text.push_str(enrolled.as_str());
                text.push_str(", but this config carries ");
                text.push_str(carried.as_str());
                text.push_str(
                    ". One key registers one Endpoint per keypair \u{2014} give each keypair its own Credential.",
                );
                Failure::Other(text)
            },
        }
    }
}

/// The questions that an attempt asks while the answers last.
pub open spec fn asked<'a>(cfg: &'a P2pConfig, cell: Registration, now: Step<'a>, replies: Seq<Reply>) -> Seq<Request<'a>>
    decreases replies.len(),
{
    match now {
        Step::Done(_) => seq![],
        Step::Ask(stage, request) => {
            if replies.len() == 0 || !answers(stage, replies[0]) {
                seq![request]
            } else {
                let next = step_spec(cfg, cell, stage, replies[0]);
                seq![request] + asked(cfg, next.0, next.1, replies.drop_first())
            }
        },
    }
}

/// What the credential is known to be spent on once the answers are used up.
pub open spec fn left<'a>(cfg: &'a P2pConfig, cell: Registration, now: Step<'a>, replies: Seq<Reply>) -> Registration
    decreases replies.len(),
{
    match now {
        Step::Done(_) => cell,
        Step::Ask(stage, _) => {
            if replies.len() == 0 || !answers(stage, replies[0]) {
                cell
            } else {
                let next = step_spec(cfg, cell, stage, replies[0]);
                left(cfg, next.0, next.1, replies.drop_first())
            }
        },
    }
}

/// A request that spends an enrolment.
pub open spec fn enrols(request: Request) -> bool {
    request is EnrollChallenge || request is Enroll
}

/// The stages of a renewal.
pub open spec fn renewing(stage: Stage) -> bool {
    stage is RefreshAuth0 || stage is RefreshAssertion || stage is RefreshChallenge || stage is Refresh
}

/// The step asks within a renewal, and asks for no enrolment.
pub open spec fn renews(now: Step) -> bool {
    match now {
        Step::Done(_) => true,
        Step::Ask(stage, request) => renewing(stage) && !enrols(request),
    }
}

proof fn lemma_renewal_stays<'a>(cfg: &'a P2pConfig, cell: Registration, now: Step<'a>, replies: Seq<Reply>)
    requires
        cfg.credential is Enrollment,
        renews(now),
    ensures
        forall|i: int| 0 <= i < asked(cfg, cell, now, replies).len() ==> !enrols(#[trigger] asked(cfg, cell, now, replies)[i]),
        left(cfg, cell, now, replies) == cell,
    decreases replies.len(),
{
    if let Step::Ask(stage, request) = now {
        if replies.len() > 0 && answers(stage, replies[0]) {
            let next = step_spec(cfg, cell, stage, replies[0]);
            assert(next.0 == cell);
            assert(renews(next.1));
            lemma_renewal_stays(cfg, next.0, next.1, replies.drop_first());
            let rest = asked(cfg, next.0, next.1, replies.drop_first());
            assert forall|i: int| 0 <= i < asked(cfg, cell, now, replies).len() implies !enrols(
                #[trigger] asked(cfg, cell, now, replies)[i],
            ) by {
                if i > 0 {
                    assert(asked(cfg, cell, now, replies)[i] == rest[i - 1]);
                }
            }
        }
    }
}

/// Once an Endpoint is known to be registered, no attempt enrols again,
/// whatever the answers are, and what the key was spent on stays what it is.
pub proof fn law_spent_key_never_enrols<'a>(cfg: &'a P2pConfig, cell: Registration, replies: Seq<Reply>)
    requires
        cfg.credential is Enrollment,
        cell.registered is Some,
    ensures
        ({
            let begun = start_spec(cfg, cell);
            let requests = asked(cfg, begun.0, begun.1, replies);
            &&& forall|i: int| 0 <= i < requests.len() ==> !enrols(#[trigger] requests[i])
            &&& left(cfg, begun.0, begun.1, replies) == cell
        }),
{
    let begun = start_spec(cfg, cell);
    lemma_renewal_stays(cfg, begun.0, begun.1, replies);
}

/// How many of the requests are enrolments.
pub open spec fn enrolments(requests: Seq<Request>) -> nat
    decreases requests.len(),
{
    if requests.len() == 0 {
        0
    } else {
        enrolments(requests.drop_first()) + (if requests[0] is Enroll {
            1nat
        } else {
            0
        })
    }
}

proof fn lemma_no_enrolments(requests: Seq<Request>)
    requires
        forall|i: int| 0 <= i < requests.len() ==> !enrols(#[trigger] requests[i]),
    ensures
        enrolments(requests) == 0,
    decreases requests.len(),
{
    if requests.len() > 0 {
        assert forall|i: int| 0 <= i < requests.drop_first().len() implies !enrols(
            #[trigger] requests.drop_first()[i],
        ) by {
            assert(requests.drop_first()[i] == requests[i + 1]);
        }
        lemma_no_enrolments(requests.drop_first());
        assert(!enrols(requests[0]));
    }
}

proof fn lemma_enrolments_of<'a>(first: Request<'a>, rest: Seq<Request<'a>>)
    ensures
        enrolments(seq![first] + rest) == enrolments(rest) + (if first is Enroll {
            1nat
        } else {
            0
        }),
{
    assert((seq![first] + rest).drop_first() =~= rest);
}

proof fn lemma_enrols_once<'a>(cfg: &'a P2pConfig, cell: Registration, now: Step<'a>, replies: Seq<Reply>)
    requires
        cfg.credential is Enrollment,
        match now {
            Step::Done(_) => true,
            Step::Ask(stage, request) => !attended(stage) && (request is Enroll <==> stage is Enrol) && (renewing(stage)
                ==> !enrols(request)),
        },
    ensures
        enrolments(asked(cfg, cell, now, replies)) <= 1,
        now matches Step::Ask(stage, _) && renewing(stage) ==> enrolments(asked(cfg, cell, now, replies)) == 0,
    decreases replies.len(),
{
    if renews(now) {
        lemma_renewal_stays(cfg, cell, now, replies);
        lemma_no_enrolments(asked(cfg, cell, now, replies));
    } else if let Step::Ask(stage, request) = now {
        if replies.len() == 0 || !answers(stage, replies[0]) {
            lemma_enrolments_of(request, seq![]);
            assert(seq![request] + Seq::<Request<'a>>::empty() =~= seq![request]);
        } else {
            let next = step_spec(cfg, cell, stage, replies[0]);
            lemma_enrols_once(cfg, next.0, next.1, replies.drop_first());
            let rest = asked(cfg, next.0, next.1, replies.drop_first());
            lemma_enrolments_of(request, rest);
            if stage is Enrol {
                assert(renews(next.1));
                lemma_renewal_stays(cfg, next.0, next.1, replies.drop_first());
                lemma_no_enrolments(rest);
            }
        }
    }
}

/// One attempt enrols at most once, whatever the answers are.
pub proof fn law_attempt_enrols_at_most_once<'a>(cfg: &'a P2pConfig, cell: Registration, replies: Seq<Reply>)
    requires
        cfg.credential is Enrollment,
    ensures
        ({
            let begun = start_spec(cfg, cell);
            enrolments(asked(cfg, begun.0, begun.1, replies)) <= 1
        }),
{
    let begun = start_spec(cfg, cell);
    lemma_enrols_once(cfg, begun.0, begun.1, replies);
}

/// How many enrolments are accepted while the answers last.
pub open spec fn accepted<'a>(cfg: &'a P2pConfig, cell: Registration, now: Step<'a>, replies: Seq<Reply>) -> nat
    decreases replies.len(),
{
    match now {
        Step::Done(_) => 0,
        Step::Ask(stage, _) => {
            if replies.len() == 0 || !answers(stage, replies[0]) {
                0
            } else {
                let next = step_spec(cfg, cell, stage, replies[0]);
                accepted(cfg, next.0, next.1, replies.drop_first()) + (if stage is Enrol && replies[0] is Token {
                    1nat
                } else {
                    0
                })
            }
        },
    }
}

proof fn lemma_accepted<'a>(cfg: &'a P2pConfig, cell: Registration, now: Step<'a>, replies: Seq<Reply>)
    requires
        cfg.credential is Enrollment,
        now matches Step::Ask(stage, _) ==> !attended(stage),
    ensures
        accepted(cfg, cell, now, replies) <= 1,
        accepted(cfg, cell, now, replies) == 1 ==> left(cfg, cell, now, replies).registered is Some,
        now matches Step::Ask(stage, _) && renewing(stage) ==> accepted(cfg, cell, now, replies) == 0,
    decreases replies.len(),
{
    if let Step::Ask(stage, _) = now {
        if replies.len() > 0 && answers(stage, replies[0]) {
            let next = step_spec(cfg, cell, stage, replies[0]);
            lemma_accepted(cfg, next.0, next.1, replies.drop_first());
        }
    }
}

/// How many enrolments are accepted over one attempt after another, each with
/// the answers it gets; every attempt begins with what the one before it left.
pub open spec fn accepted_in_all(cfg: &P2pConfig, cell: Registration, attempts: Seq<Seq<Reply>>) -> nat
    decreases attempts.len(),
{
    if attempts.len() == 0 {
        0
    } else {
        let begun = start_spec(cfg, cell);
        accepted(cfg, begun.0, begun.1, attempts[0]) + accepted_in_all(
            cfg,
            left(cfg, begun.0, begun.1, attempts[0]),
            attempts.drop_first(),
        )
    }
}

/// One key registers one Endpoint: however many attempts there are and
/// whatever they are answered, at most one enrolment is accepted, and none
/// where an Endpoint is known to be registered already.
pub proof fn law_at_most_one_enrolment_is_accepted(cfg: &P2pConfig, cell: Registration, attempts: Seq<Seq<Reply>>)
    requires
        cfg.credential is Enrollment,
    ensures
        accepted_in_all(cfg, cell, attempts) <= 1,
        cell.registered is Some ==> accepted_in_all(cfg, cell, attempts) == 0,
    decreases attempts.len(),
{
    if attempts.len() > 0 {
        let begun = start_spec(cfg, cell);
        lemma_accepted(cfg, begun.0, begun.1, attempts[0]);
        if cell.registered is Some {
            law_spent_key_never_enrols(cfg, cell, attempts[0]);
        }
        law_at_most_one_enrolment_is_accepted(cfg, left(cfg, begun.0, begun.1, attempts[0]), attempts.drop_first());
    }
}

/// How an attempt ends, where the answers last that long.
pub open spec fn outcome<'a>(cfg: &'a P2pConfig, cell: Registration, now: Step<'a>, replies: Seq<Reply>) -> Option<
    Result<EndpointToken, IssueError>,
>
    decreases replies.len(),
{
    match now {
        Step::Done(result) => Some(result),
        Step::Ask(stage, _) => {
            if replies.len() == 0 || !answers(stage, replies[0]) {
                None
            } else {
                let next = step_spec(cfg, cell, stage, replies[0]);
                outcome(cfg, next.0, next.1, replies.drop_first())
            }
        },
    }
}

/// Every question of the attempt is answered and nothing fails, but that where
/// `conflict` is given the enrolment is told that the Endpoint is already there.
pub open spec fn served<'a>(
    cfg: &'a P2pConfig,
    cell: Registration,
    now: Step<'a>,
    replies: Seq<Reply>,
    conflict: bool,
) -> bool
    decreases replies.len(),
{
    match now {
        Step::Done(_) => replies.len() == 0,
        Step::Ask(stage, _) => {
            &&& replies.len() > 0
            &&& answers(stage, replies[0])
            &&& if conflict && stage is Enrol {
                replies[0] matches Reply::Failed(f) && already_registered_spec(f)
            } else {
                !(replies[0] is Failed)
            }
            &&& ({
                let next = step_spec(cfg, cell, stage, replies[0]);
                served(cfg, next.0, next.1, replies.drop_first(), conflict)
            })
        },
    }
}

/// A call that is served as [`served`] says.
pub open spec fn call_served(cfg: &P2pConfig, cell: Registration, replies: Seq<Reply>, conflict: bool) -> bool {
    let begun = start_spec(cfg, cell);
    served(cfg, begun.0, begun.1, replies, conflict)
}

/// What a call asks.
pub open spec fn call_requests<'a>(cfg: &'a P2pConfig, cell: Registration, replies: Seq<Reply>) -> Seq<Request<'a>> {
    let begun = start_spec(cfg, cell);
    asked(cfg, begun.0, begun.1, replies)
}

/// How a call ends.
pub open spec fn call_outcome(cfg: &P2pConfig, cell: Registration, replies: Seq<Reply>) -> Option<
    Result<EndpointToken, IssueError>,
> {
    let begun = start_spec(cfg, cell);
    outcome(cfg, begun.0, begun.1, replies)
}

/// What the credential is known to be spent on after a call.
pub open spec fn call_leaves(cfg: &P2pConfig, cell: Registration, replies: Seq<Reply>) -> Registration {
    let begun = start_spec(cfg, cell);
    left(cfg, begun.0, begun.1, replies)
}

/// A request that renews.
pub open spec fn refreshes(request: Request) -> bool {
    request is RefreshChallenge || request is RefreshToken
}

/// The call returns the token that its last question was answered with.
pub open spec fn returns_last(cfg: &P2pConfig, cell: Registration, replies: Seq<Reply>) -> bool {
    &&& replies.len() > 0
    &&& call_requests(cfg, cell, replies).len() == replies.len()
    &&& replies.last() matches Reply::Token(token) && call_outcome(cfg, cell, replies) == Some(
        Ok::<EndpointToken, IssueError>(token),
    )
}

/// The call returns the token of its one enrolment, and renews nothing.
pub open spec fn brings_the_enrolments_token(cfg: &P2pConfig, cell: Registration, replies: Seq<Reply>) -> bool {
    let requests = call_requests(cfg, cell, replies);
    &&& returns_last(cfg, cell, replies)
    &&& requests.last() is Enroll
    &&& enrolments(requests) == 1
    &&& forall|i: int| 0 <= i < requests.len() ==> !refreshes(#[trigger] requests[i])
}

/// The call returns a renewed token, and enrols nothing.
pub open spec fn brings_a_renewed_token(cfg: &P2pConfig, cell: Registration, replies: Seq<Reply>) -> bool {
    let requests = call_requests(cfg, cell, replies);
    &&& returns_last(cfg, cell, replies)
    &&& requests.last() is RefreshToken
    &&& enrolments(requests) == 0
    &&& forall|i: int| 0 <= i < requests.len() ==> !enrols(#[trigger] requests[i])
}

/// The request is the one that the stage waits for an answer to.
spec fn fits(stage: Stage, request: Request) -> bool {
    &&& stage is Enrol <==> request is Enroll
    &&& stage is EnrolChallenge <==> request is EnrollChallenge
    &&& stage is Refresh <==> request is RefreshToken
    &&& stage is RefreshChallenge <==> request is RefreshChallenge
}

/// Whether an enrolment of this run may have reached the server before the one
/// that the stage belongs to.
pub open spec fn tried_before(stage: Stage) -> bool {
    match stage {
        Stage::EnrolAuth0 { attempted_before } => attempted_before,
        Stage::EnrolAssertion { attempted_before, .. } => attempted_before,
        Stage::EnrolChallenge { attempted_before, .. } => attempted_before,
        Stage::Enrol { attempted_before } => attempted_before,
        _ => false,
    }
}

proof fn lemma_served_renewal<'a>(
    cfg: &'a P2pConfig,
    cell: Registration,
    now: Step<'a>,
    replies: Seq<Reply>,
    conflict: bool,
)
    requires
        cfg.credential is Enrollment,
        now matches Step::Ask(stage, request) && renewing(stage) && fits(stage, request),
        served(cfg, cell, now, replies, conflict),
    ensures
        replies.len() > 0,
        replies.last() matches Reply::Token(token) && outcome(cfg, cell, now, replies) == Some(
            Ok::<EndpointToken, IssueError>(token),
        ),
        asked(cfg, cell, now, replies).len() == replies.len(),
        asked(cfg, cell, now, replies).last() is RefreshToken,
        left(cfg, cell, now, replies) == cell,
        forall|i: int| 0 <= i < asked(cfg, cell, now, replies).len() ==> !enrols(#[trigger] asked(cfg, cell, now, replies)[i]),
        enrolments(asked(cfg, cell, now, replies)) == 0,
    decreases replies.len(),
{
    lemma_renewal_stays(cfg, cell, now, replies);
    lemma_no_enrolments(asked(cfg, cell, now, replies));
    reveal_with_fuel(served, 2);
    reveal_with_fuel(outcome, 2);
    if let Step::Ask(stage, request) = now {
        let next = step_spec(cfg, cell, stage, replies[0]);
        let rest = replies.drop_first();
        if stage is Refresh {
            assert(rest.len() == 0);
            assert(replies.last() == replies[0]);
            assert(asked(cfg, next.0, next.1, rest) =~= seq![]);
            assert(asked(cfg, cell, now, replies) =~= seq![request]);
        } else {
            assert(next.0 == cell);
            lemma_served_renewal(cfg, next.0, next.1, rest, conflict);
            assert(rest.last() == replies.last());
            assert(asked(cfg, cell, now, replies).last() == asked(cfg, next.0, next.1, rest).last());
        }
    }
}

proof fn lemma_served_enrolment<'a>(
    cfg: &'a P2pConfig,
    cell: Registration,
    now: Step<'a>,
    replies: Seq<Reply>,
    conflict: bool,
)
    requires
        cfg.credential is Enrollment,
        now matches Step::Ask(stage, request) && !attended(stage) && !renewing(stage) && fits(stage, request),
        served(cfg, cell, now, replies, conflict),
    ensures
        replies.len() > 0,
        replies.last() matches Reply::Token(token) && outcome(cfg, cell, now, replies) == Some(
            Ok::<EndpointToken, IssueError>(token),
        ),
        asked(cfg, cell, now, replies).len() == replies.len(),
        enrolments(asked(cfg, cell, now, replies)) == 1,
        left(cfg, cell, now, replies) == settled(*cfg, cell, if conflict {
            tried_before(now->Ask_0)
        } else {
            true
        }),
        conflict ==> asked(cfg, cell, now, replies).last() is RefreshToken,
        !conflict ==> asked(cfg, cell, now, replies).last() is Enroll,
        !conflict ==> forall|i: int|
            0 <= i < asked(cfg, cell, now, replies).len() ==> !refreshes(#[trigger] asked(cfg, cell, now, replies)[i]),
    decreases replies.len(),
{
    reveal_with_fuel(served, 2);
    reveal_with_fuel(outcome, 2);
    reveal_with_fuel(left, 2);
    if let Step::Ask(stage, request) = now {
        let next = step_spec(cfg, cell, stage, replies[0]);
        let rest = replies.drop_first();
        let later = asked(cfg, next.0, next.1, rest);
        let all = asked(cfg, cell, now, replies);
        lemma_enrolments_of(request, later);
        assert(all =~= seq![request] + later);
        if stage is Enrol && !conflict {
            assert(rest.len() == 0);
            assert(replies.last() == replies[0]);
            assert(later =~= seq![]);
            assert(all =~= seq![request]);
            assert(enrolments(later) == 0);
        } else if stage is Enrol {
            lemma_served_renewal(cfg, next.0, next.1, rest, conflict);
            assert(rest.last() == replies.last());
            assert(all.last() == later.last());
        } else {
            assert(next.0 == cell);
            lemma_served_enrolment(cfg, next.0, next.1, rest, conflict);
            assert(rest.last() == replies.last());
            assert(all.last() == later.last());
            if !conflict {
                assert forall|i: int| 0 <= i < all.len() implies !refreshes(#[trigger] all[i]) by {
                    if i > 0 {
                        assert(all[i] == later[i - 1]);
                    }
                }
            }
        }
    }
}

proof fn lemma_first_call(cfg: &P2pConfig, cell: Registration, replies: Seq<Reply>, conflict: bool)
    requires
        cfg.credential is Enrollment,
        cell.registered is None,
        call_served(cfg, cell, replies, conflict),
    ensures
        returns_last(cfg, cell, replies),
        !conflict ==> brings_the_enrolments_token(cfg, cell, replies),
        enrolments(call_requests(cfg, cell, replies)) == 1,
        call_leaves(cfg, cell, replies) == settled(
            *cfg,
            Registration { attempted: true, ..cell },
            !conflict || cell.attempted,
        ),
{
    let begun = start_spec(cfg, cell);
    lemma_served_enrolment(cfg, begun.0, begun.1, replies, conflict);
}

proof fn lemma_later_call(cfg: &P2pConfig, cell: Registration, replies: Seq<Reply>, conflict: bool)
    requires
        cfg.credential is Enrollment,
        cell.registered matches Some(registered) && registered.endpoint_id@ == cfg.endpoint@,
        call_served(cfg, cell, replies, conflict),
    ensures
        brings_a_renewed_token(cfg, cell, replies),
        call_leaves(cfg, cell, replies) == cell,
{
    let begun = start_spec(cfg, cell);
    lemma_served_renewal(cfg, begun.0, begun.1, replies, conflict);
}

/// What the credential is known to be spent on after one call after another.
pub open spec fn calls_leave(cfg: &P2pConfig, cell: Registration, calls: Seq<Seq<Reply>>) -> Registration
    decreases calls.len(),
{
    if calls.len() == 0 {
        cell
    } else {
        call_leaves(cfg, calls_leave(cfg, cell, calls.drop_last()), calls.last())
    }
}

/// How many enrolments are asked for over one call after another.
pub open spec fn enrolments_in_all(cfg: &P2pConfig, cell: Registration, calls: Seq<Seq<Reply>>) -> nat
    decreases calls.len(),
{
    if calls.len() == 0 {
        0
    } else {
        enrolments_in_all(cfg, cell, calls.drop_last()) + enrolments(
            call_requests(cfg, calls_leave(cfg, cell, calls.drop_last()), calls.last()),
        )
    }
}

/// Of any number of calls with one Enrollment Key that are served, every one
/// brings a token and one enrolment is asked for in all: the first call brings
/// the enrolment's own token without renewing, and the others a renewed one.
pub proof fn law_first_call_enrols_and_the_rest_renew(cfg: &P2pConfig, cell: Registration, calls: Seq<Seq<Reply>>)
    requires
        cfg.credential is Enrollment,
        cell.registered is None,
        calls.len() > 0,
        forall|i: int|
            0 <= i < calls.len() ==> call_served(cfg, calls_leave(cfg, cell, calls.take(i)), #[trigger] calls[i], false),
    ensures
        enrolments_in_all(cfg, cell, calls) == 1,
        brings_the_enrolments_token(cfg, cell, calls[0]),
        forall|i: int|
            0 < i < calls.len() ==> brings_a_renewed_token(cfg, calls_leave(cfg, cell, calls.take(i)), #[trigger] calls[i]),
        calls_leave(cfg, cell, calls) == settled(*cfg, Registration { attempted: true, ..cell }, true),
    decreases calls.len(),
{
    let rest = calls.drop_last();
    let n = calls.len() - 1;
    assert(calls.take(n) =~= rest);
    assert(call_served(cfg, calls_leave(cfg, cell, calls.take(n)), calls[n], false));
    if n == 0 {
        assert(rest =~= seq![]);
        lemma_first_call(cfg, cell, calls[0], false);
        reveal_with_fuel(enrolments_in_all, 2);
    } else {
        assert forall|i: int| 0 <= i < rest.len() implies call_served(
            cfg,
            calls_leave(cfg, cell, rest.take(i)),
            #[trigger] rest[i],
            false,
        ) by {
            assert(rest.take(i) =~= calls.take(i));
            assert(rest[i] == calls[i]);
        }
        law_first_call_enrols_and_the_rest_renew(cfg, cell, rest);
        lemma_later_call(cfg, calls_leave(cfg, cell, rest), calls[n], false);
        assert forall|i: int| 0 < i < calls.len() implies brings_a_renewed_token(
            cfg,
            calls_leave(cfg, cell, calls.take(i)),
            #[trigger] calls[i],
        ) by {
            if i < n {
                assert(rest.take(i) =~= calls.take(i));
                assert(rest[i] == calls[i]);
            }
        }
        assert(rest[0] == calls[0]);
    }
}

/// An attempt that begins now may register the Endpoint, and so comes alone.
pub open spec fn comes_alone(cfg: P2pConfig, cell: Registration) -> bool {
    cell.registered is None && match cfg.credential {
        Credential::Auth0 { register, .. } => register,
        Credential::Enrollment(_) => true,
    }
}

/// Who holds the turn after `caller`, who held it, has come this far: it is
/// given up once an Endpoint is known to be registered, or the attempt is over.
pub open spec fn turn_after(cfg: P2pConfig, cell: Registration, now: Step, caller: u64) -> Option<u64> {
    if comes_alone(cfg, cell) && now is Ask {
        Some(caller)
    } else {
        None
    }
}

/// A credential that several callers use at the same time.
///
/// Until an Endpoint is known to be registered one caller goes first and the
/// others wait for their turn. From then on nobody waits.
#[derive(Debug)]
pub struct Turns {
    /// What the credential has been spent on.
    pub cell: Registration,
    /// The caller whose turn it is, while one is settling that.
    pub holder: Option<u64>,
}

impl Turns {
    /// A credential that nobody has used.
    pub fn new() -> (turns: Self)
        ensures
            turns.cell.registered is None,
            !turns.cell.attempted,
            turns.holder is None,
    {
        Turns { cell: Registration::new(), holder: None }
    }

    /// Begin an attempt; none where the caller has to wait for its turn.
    pub fn begin<'a>(&mut self, caller: u64, cfg: &'a P2pConfig) -> (r: Option<Step<'a>>)
        ensures
            if comes_alone(*cfg, old(self).cell) && old(self).holder is Some {
                r is None && *final(self) == *old(self)
            } else {
                &&& r matches Some(step) && (final(self).cell, step) == start_spec(cfg, old(self).cell)
                &&& final(self).holder == (if comes_alone(*cfg, old(self).cell) {
                    turn_after(*cfg, final(self).cell, r->0, caller)
                } else {
                    old(self).holder
                })
            },
    {
        let alone = alone(cfg, &self.cell);
        if alone && self.holder.is_some() {
            return None;
        }
        let step = issue_endpoint_token(cfg, &mut self.cell);
        if alone {
            self.holder = self.turn(cfg, &step, caller);
        }
        Some(step)
    }

    /// Go on with an attempt, after an answer.
    pub fn answered<'a>(&mut self, caller: u64, cfg: &'a P2pConfig, stage: Stage, reply: Reply) -> (r: Step<'a>)
        requires
            answers(stage, reply),
            belongs(*cfg, stage),
            comes_alone(*cfg, old(self).cell) ==> old(self).holder == Some(caller),
        ensures
            (final(self).cell, r) == step_spec(cfg, old(self).cell, stage, reply),
            final(self).holder == (if old(self).holder == Some(caller) {
                turn_after(*cfg, final(self).cell, r, caller)
            } else {
                old(self).holder
            }),
    {
        let step = issue_step(cfg, &mut self.cell, stage, reply);
        if let Some(holder) = self.holder {
            if holder == caller {
                self.holder = self.turn(cfg, &step, caller);
            }
        }
        step
    }

    /// Give up an attempt that will not be gone on with; a turn passes on.
    pub fn leave(&mut self, caller: u64)
        ensures
            final(self).cell == old(self).cell,
            final(self).holder == (if old(self).holder == Some(caller) {
                None
            } else {
                old(self).holder
            }),
    {
        if let Some(holder) = self.holder {
            if holder == caller {
                self.holder = None;
            }
        }
    }

    fn turn(&self, cfg: &P2pConfig, step: &Step, caller: u64) -> (holder: Option<u64>)
        ensures
            holder == turn_after(*cfg, self.cell, *step, caller),
    {
        match step {
            Step::Ask(_, _) => {
                if alone(cfg, &self.cell) {
                    Some(caller)
                } else {
                    None
                }
            },
            Step::Done(_) => None,
        }
    }
}

fn alone(cfg: &P2pConfig, cell: &Registration) -> (r: bool)
    ensures
        r == comes_alone(*cfg, *cell),
{
    if cell.registered.is_some() {
        return false;
    }
    match &cfg.credential {
        Credential::Auth0 { token: _, source: _, register } => *register,
        Credential::Enrollment(_) => true,
    }
}

/// Something that happens where several callers use one credential.
pub enum Act {
    /// A caller tries to begin, or tries again.
    Begin(u64),
    /// The open question of a caller is answered.
    Answer(u64, Reply),
}

/// Where several callers of one credential are.
pub struct Scene<'a> {
    /// What the credential has been spent on.
    pub cell: Registration,
    /// Whose turn it is.
    pub holder: Option<u64>,
    /// The open question of every call that is under way.
    pub open: Map<u64, Stage>,
    /// Every caller that has begun.
    pub begun: Set<u64>,
    /// What was asked, and by whom.
    pub requests: Seq<(u64, Request<'a>)>,
    /// The calls that are over: whose, whether an enrolment ended it, and how.
    pub done: Seq<(u64, bool, Result<EndpointToken, IssueError>)>,
}

/// A caller has come this far; `enrolled` says whether the answer was to an enrolment.
pub open spec fn arrived<'a>(scene: Scene<'a>, caller: u64, now: Step<'a>, enrolled: bool) -> Scene<'a> {
    match now {
        Step::Ask(stage, request) => Scene {
            open: scene.open.insert(caller, stage),
            requests: scene.requests.push((caller, request)),
            ..scene
        },
        Step::Done(result) => Scene {
            open: scene.open.remove(caller),
            done: scene.done.push((caller, enrolled, result)),
            ..scene
        },
    }
}

/// The scene after something happens, as [`Turns`] has it. Each caller makes one
/// call, and only an open question can be answered.
pub open spec fn happened<'a>(cfg: &'a P2pConfig, scene: Scene<'a>, act: Act) -> Scene<'a> {
    match act {
        Act::Begin(caller) => {
            let alone = comes_alone(*cfg, scene.cell);
            if scene.begun.contains(caller) || (alone && scene.holder is Some) {
                scene
            } else {
                let begun = start_spec(cfg, scene.cell);
                let holder = if alone {
                    turn_after(*cfg, begun.0, begun.1, caller)
                } else {
                    scene.holder
                };
                arrived(
                    Scene { cell: begun.0, holder, begun: scene.begun.insert(caller), ..scene },
                    caller,
                    begun.1,
                    false,
                )
            }
        },
        Act::Answer(caller, reply) => {
            if !scene.open.contains_key(caller) || !answers(scene.open[caller], reply) {
                scene
            } else {
                let next = step_spec(cfg, scene.cell, scene.open[caller], reply);
                let holder = if scene.holder == Some(caller) {
                    turn_after(*cfg, next.0, next.1, caller)
                } else {
                    scene.holder
                };
                arrived(
                    Scene { cell: next.0, holder, ..scene },
                    caller,
                    next.1,
                    scene.open[caller] is Enrol,
                )
            }
        },
    }
}

/// The scene after one thing after another, from a credential that nobody uses.
pub open spec fn played<'a>(cfg: &'a P2pConfig, cell: Registration, acts: Seq<Act>) -> Scene<'a>
    decreases acts.len(),
{
    if acts.len() == 0 {
        Scene {
            cell,
            holder: None,
            open: Map::empty(),
            begun: Set::empty(),
            requests: seq![],
            done: seq![],
        }
    } else {
        happened(cfg, played(cfg, cell, acts.drop_last()), acts.last())
    }
}

/// How many enrolments were asked for.
pub open spec fn enrolments_among(requests: Seq<(u64, Request)>) -> nat
    decreases requests.len(),
{
    if requests.len() == 0 {
        0
    } else {
        enrolments_among(requests.drop_last()) + (if requests.last().1 is Enroll {
            1nat
        } else {
            0
        })
    }
}

/// Nothing is settled: at most one call is under way, it is the one whose turn
/// it is, and it is enrolling.
spec fn unsettled(cfg: &P2pConfig, scene: Scene) -> bool {
    &&& scene.cell.registered is None
    &&& scene.done.len() == 0
    &&& match scene.holder {
        None => scene.open.dom() =~= Set::empty() && scene.requests.len() == 0,
        Some(holder) => {
            &&& scene.open.dom() =~= set![holder]
            &&& scene.begun.contains(holder)
            &&& !attended(scene.open[holder]) && !renewing(scene.open[holder])
            &&& forall|k: int|
                0 <= k < scene.requests.len() ==> (#[trigger] scene.requests[k]).0 == holder && !refreshes(
                    scene.requests[k].1,
                )
            &&& enrolments_among(scene.requests) == (if scene.open[holder] is Enrol {
                1nat
            } else {
                0
            })
        },
    }
}

/// The Endpoint is registered: the first call is over, and all others renew.
spec fn settled_by_the_first(cfg: &P2pConfig, scene: Scene) -> bool {
    &&& scene.cell.registered matches Some(registered) && registered.endpoint_id == cfg.endpoint
    &&& scene.holder is None
    &&& scene.done.len() > 0
    &&& scene.begun.contains(scene.done[0].0)
    &&& forall|caller: u64| #[trigger]
        scene.open.contains_key(caller) ==> renewing(scene.open[caller]) && caller != scene.done[0].0
            && scene.begun.contains(caller)
    &&& enrolments_among(scene.requests) == 1
    &&& forall|k: int|
        0 <= k < scene.requests.len() ==> if (#[trigger] scene.requests[k]).0 == scene.done[0].0 {
            !refreshes(scene.requests[k].1)
        } else {
            !enrols(scene.requests[k].1)
        }
    &&& forall|i: int|
        0 <= i < scene.done.len() ==> (#[trigger] scene.done[i]).2 is Ok && (scene.done[i].1 <==> i == 0)
}

proof fn lemma_scene<'a>(cfg: &'a P2pConfig, scene: Scene<'a>, act: Act)
    requires
        cfg.credential is Enrollment,
        unsettled(cfg, scene) || settled_by_the_first(cfg, scene),
        act matches Act::Answer(_, reply) ==> !(reply is Failed),
    ensures
        ({
            let after = happened(cfg, scene, act);
            unsettled(cfg, after) || settled_by_the_first(cfg, after)
        }),
{
    let after = happened(cfg, scene, act);
    assert(after.requests.len() > scene.requests.len() ==> after.requests.drop_last() =~= scene.requests);
    assert(forall|k: int| 0 <= k < scene.requests.len() ==> after.requests[k] == scene.requests[k]);
    assert(forall|i: int| 0 <= i < scene.done.len() ==> after.done[i] == scene.done[i]);
    match act {
        Act::Begin(caller) => {
            if !scene.begun.contains(caller) && !(comes_alone(*cfg, scene.cell) && scene.holder is Some) {
                let begun = start_spec(cfg, scene.cell);
                assert(begun.1 is Ask);
                if scene.cell.registered is None {
                    assert(scene.requests =~= seq![]);
                    reveal_with_fuel(enrolments_among, 2);
                    assert(unsettled(cfg, after));
                } else {
                    assert(settled_by_the_first(cfg, after));
                }
            }
        },
        Act::Answer(caller, reply) => {
            if scene.open.contains_key(caller) && answers(scene.open[caller], reply) {
                if scene.cell.registered is None {
                    assert(scene.open.dom().contains(caller));
                    assert(scene.holder == Some(caller));
                    if scene.open[caller] is Enrol {
                        assert(after.open.dom() =~= Set::empty());
                        assert(settled_by_the_first(cfg, after));
                    } else {
                        assert(after.open.dom() =~= set![caller]);
                        assert(unsettled(cfg, after));
                    }
                } else {
                    assert(settled_by_the_first(cfg, after));
                }
            }
        },
    }
}

proof fn lemma_played(cfg: &P2pConfig, cell: Registration, acts: Seq<Act>)
    requires
        cfg.credential is Enrollment,
        cell.registered is None,
        forall|i: int| 0 <= i < acts.len() ==> ((#[trigger] acts[i]) matches Act::Answer(_, reply) ==> !(reply is Failed)),
    ensures
        unsettled(cfg, played(cfg, cell, acts)) || settled_by_the_first(cfg, played(cfg, cell, acts)),
    decreases acts.len(),
{
    if acts.len() > 0 {
        let rest = acts.drop_last();
        assert forall|i: int| 0 <= i < rest.len() implies ((#[trigger] rest[i]) matches Act::Answer(_, reply) ==> !(
        reply is Failed)) by {
            assert(rest[i] == acts[i]);
        }
        lemma_played(cfg, cell, rest);
        assert(acts[acts.len() - 1] == acts.last());
        lemma_scene(cfg, played(cfg, cell, rest), acts.last());
    }
}

/// However the calls of any number of callers with one Enrollment Key fall
/// together, as long as nothing fails: every call that is over brought a token;
/// one enrolment is asked for in all; the first call to be over brought the
/// enrolment's own token and renewed nothing, and the others renewed and
/// enrolled nothing. Whoever waits, waits for a call that is under way.
pub proof fn law_calls_at_the_same_time_enrol_once(cfg: &P2pConfig, cell: Registration, acts: Seq<Act>)
    requires
        cfg.credential is Enrollment,
        cell.registered is None,
        forall|i: int| 0 <= i < acts.len() ==> ((#[trigger] acts[i]) matches Act::Answer(_, reply) ==> !(reply is Failed)),
    ensures
        ({
            let scene = played(cfg, cell, acts);
            &&& enrolments_among(scene.requests) <= 1
            &&& scene.done.len() > 0 ==> enrolments_among(scene.requests) == 1
            &&& forall|i: int|
                0 <= i < scene.done.len() ==> (#[trigger] scene.done[i]).2 is Ok && (scene.done[i].1 <==> i == 0)
            &&& forall|k: int|
                0 <= k < scene.requests.len() && scene.done.len() > 0 ==> if (#[trigger] scene.requests[k]).0
                    == scene.done[0].0 {
                    !refreshes(scene.requests[k].1)
                } else {
                    !enrols(scene.requests[k].1)
                }
            &&& scene.holder matches Some(holder) ==> scene.open.contains_key(holder)
        }),
{
    lemma_played(cfg, cell, acts);
    let scene = played(cfg, cell, acts);
    if scene.requests.len() == 0 {
        assert(enrolments_among(scene.requests) == 0);
    }
    if let Some(holder) = scene.holder {
        assert(scene.open.dom().contains(holder));
    }
}

/// A call whose enrolment finds the Endpoint already there brings a renewed
/// token all the same, and a second call renews without enrolling. The slot is
/// this run's exactly where it had tried to enrol before.
pub proof fn law_found_endpoint_is_renewed(cfg: &P2pConfig, cell: Registration, replies: Seq<Reply>, again: Seq<Reply>)
    requires
        cfg.credential is Enrollment,
        cell.registered is None,
        call_served(cfg, cell, replies, true),
        call_served(cfg, call_leaves(cfg, cell, replies), again, false),
    ensures
        returns_last(cfg, cell, replies),
        call_leaves(cfg, cell, replies).registered == Some(
            Registered { endpoint_id: cfg.endpoint, by_us: cell.attempted },
        ),
        owes_slot(call_leaves(cfg, cell, replies)) == cell.attempted,
        brings_a_renewed_token(cfg, call_leaves(cfg, cell, replies), again),
        call_leaves(cfg, call_leaves(cfg, cell, replies), again) == call_leaves(cfg, cell, replies),
{
    lemma_first_call(cfg, cell, replies, true);
    lemma_later_call(cfg, call_leaves(cfg, cell, replies), again, false);
}

proof fn lemma_attempt_stays_marked<'a>(cfg: &'a P2pConfig, cell: Registration, now: Step<'a>, replies: Seq<Reply>)
    requires
        cfg.credential is Enrollment,
        cell.attempted,
        now matches Step::Ask(stage, _) ==> !attended(stage),
    ensures
        left(cfg, cell, now, replies).attempted,
    decreases replies.len(),
{
    if let Step::Ask(stage, _) = now {
        if replies.len() > 0 && answers(stage, replies[0]) {
            let next = step_spec(cfg, cell, stage, replies[0]);
            lemma_attempt_stays_marked(cfg, next.0, next.1, replies.drop_first());
        }
    }
}

/// A call that failed without learning what became of its enrolment leaves the
/// slot with this run: finding the Endpoint there the next time, it owes it back.
pub proof fn law_lost_answer_leaves_the_slot_with_this_run(
    cfg: &P2pConfig,
    cell: Registration,
    lost: Seq<Reply>,
    replies: Seq<Reply>,
)
    requires
        cfg.credential is Enrollment,
        cell.registered is None,
        call_leaves(cfg, cell, lost).registered is None,
        call_served(cfg, call_leaves(cfg, cell, lost), replies, true),
    ensures
        returns_last(cfg, call_leaves(cfg, cell, lost), replies),
        owes_slot(call_leaves(cfg, call_leaves(cfg, cell, lost), replies)),
{
    let begun = start_spec(cfg, cell);
    lemma_attempt_stays_marked(cfg, begun.0, begun.1, lost);
    lemma_first_call(cfg, call_leaves(cfg, cell, lost), replies, true);
}

/// After a call for one keypair was served, a configuration with another
/// keypair and the same Enrollment Key credential is refused: it asks nothing,
/// is told to use a credential of its own, and the credential still records the
/// first one's Endpoint.
pub proof fn law_second_keypair_is_refused(
    first: &P2pConfig,
    cfg: &P2pConfig,
    cell: Registration,
    replies: Seq<Reply>,
    more: Seq<Reply>,
)
    requires
        first.credential is Enrollment,
        cfg.credential is Enrollment,
        cfg.endpoint@ != first.endpoint@,
        cell.registered is None,
        call_served(first, cell, replies, false),
    ensures
        ({
            let spent = call_leaves(first, cell, replies);
            &&& spent.registered matches Some(registered) && registered.endpoint_id == first.endpoint
            &&& call_outcome(cfg, spent, more) == Some(
                Err::<EndpointToken, IssueError>(
                    IssueError::EnrolledElsewhere { enrolled: first.endpoint, carried: cfg.endpoint },
                ),
            )
            &&& call_requests(cfg, spent, more).len() == 0
            &&& call_leaves(cfg, spent, more) == spent
        }),
        holds_text(enrolled_elsewhere_text(first.endpoint@, cfg.endpoint@), "own Credential"@),
{
    lemma_first_call(first, cell, replies, false);
    let text = enrolled_elsewhere_text(first.endpoint@, cfg.endpoint@);
    let tail = ". One key registers one Endpoint per keypair \u{2014} give each keypair its own Credential."@;
    let part = "own Credential"@;
    reveal_strlit(". One key registers one Endpoint per keypair \u{2014} give each keypair its own Credential.");
    reveal_strlit("own Credential");
    let i = text.len() - 1 - part.len();
    assert(text.subrange(i, i + part.len()) =~= tail.subrange(
        tail.len() - 1 - part.len(),
        tail.len() - 1,
    ));
    assert(text.subrange(i, i + part.len()) =~= part);
}

/// A credential that was spent on another keypair asks nothing at all: it
/// neither renews nor issues for a keypair that was never registered.
pub proof fn law_credential_does_not_stand_in_for_another_keypair<'a>(
    cfg: &'a P2pConfig,
    cell: Registration,
    replies: Seq<Reply>,
)
    requires
        cell.registered matches Some(registered) && registered.endpoint_id@ != cfg.endpoint@,
        cfg.credential matches Credential::Auth0 { source, register, .. } ==> register && source is None,
    ensures
        ({
            let begun = start_spec(cfg, cell);
            &&& begun.1 matches Step::Done(Err(_))
            &&& asked(cfg, begun.0, begun.1, replies).len() == 0
            &&& begun.0 == cell
        }),
{
}

/// The same, where a current Auth0 token is asked for first: it is the only
/// thing that is asked for.
pub proof fn law_current_token_does_not_stand_in_for_another_keypair<'a>(
    cfg: &'a P2pConfig,
    cell: Registration,
    replies: Seq<Reply>,
)
    requires
        cell.registered matches Some(registered) && registered.endpoint_id@ != cfg.endpoint@,
        cfg.credential matches Credential::Auth0 { source, register, .. } && register && source is Some,
    ensures
        ({
            let begun = start_spec(cfg, cell);
            asked(cfg, begun.0, begun.1, replies) == seq![Request::<'a>::Auth0Token]
        }),
{
    reveal_with_fuel(asked, 2);
    let begun = start_spec(cfg, cell);
    if replies.len() > 0 && answers(Stage::Auth0Token, replies[0]) {
        let next = step_spec(cfg, cell, Stage::Auth0Token, replies[0]);
        assert(next.1 is Done);
        assert(seq![Request::<'a>::Auth0Token] + Seq::<Request<'a>>::empty() =~= seq![Request::<'a>::Auth0Token]);
    }
}

/// A request that registers an Endpoint.
pub open spec fn registers(request: Request) -> bool {
    request is RegisterChallenge || request is Register
}

/// A person's sign-in has a token at this step, or is over, and registers nothing.
pub open spec fn issues(now: Step) -> bool {
    match now {
        Step::Done(_) => true,
        Step::Ask(stage, request) => (stage is Auth0Token || stage is Issue) && !registers(request),
    }
}

proof fn lemma_issue_stays<'a>(cfg: &'a P2pConfig, cell: Registration, now: Step<'a>, replies: Seq<Reply>)
    requires
        cfg.credential is Auth0,
        cell.registered is Some,
        issues(now),
    ensures
        forall|i: int| 0 <= i < asked(cfg, cell, now, replies).len() ==> !registers(#[trigger] asked(cfg, cell, now, replies)[i]),
        left(cfg, cell, now, replies) == cell,
    decreases replies.len(),
{
    if let Step::Ask(stage, request) = now {
        if replies.len() > 0 && answers(stage, replies[0]) {
            let next = step_spec(cfg, cell, stage, replies[0]);
            assert(next.0 == cell);
            assert(issues(next.1));
            lemma_issue_stays(cfg, next.0, next.1, replies.drop_first());
            let rest = asked(cfg, next.0, next.1, replies.drop_first());
            assert forall|i: int| 0 <= i < asked(cfg, cell, now, replies).len() implies !registers(
                #[trigger] asked(cfg, cell, now, replies)[i],
            ) by {
                if i > 0 {
                    assert(asked(cfg, cell, now, replies)[i] == rest[i - 1]);
                }
            }
        }
    }
}

/// A person's sign-in registers once: from then on every attempt only issues,
/// whatever the answers are.
pub proof fn law_registered_endpoint_is_not_registered_again<'a>(
    cfg: &'a P2pConfig,
    cell: Registration,
    replies: Seq<Reply>,
)
    requires
        cfg.credential is Auth0,
        cell.registered is Some,
    ensures
        ({
            let begun = start_spec(cfg, cell);
            let requests = asked(cfg, begun.0, begun.1, replies);
            &&& forall|i: int| 0 <= i < requests.len() ==> !registers(#[trigger] requests[i])
            &&& left(cfg, begun.0, begun.1, replies) == cell
        }),
{
    let begun = start_spec(cfg, cell);
    lemma_issue_stays(cfg, begun.0, begun.1, replies);
}

/// A registration that was accepted, or found to be there, stays known though
/// the issue after it fails.
pub proof fn law_registration_outlives_a_failed_issue(
    cfg: &P2pConfig,
    cell: Registration,
    auth0: String,
    accepted: Reply,
    reply: Reply,
)
    requires
        cfg.credential is Auth0,
        accepted is Registered || (accepted matches Reply::Failed(f) && already_registered_spec(f)),
        answers(Stage::Issue, reply),
    ensures
        ({
            let next = step_spec(cfg, cell, Stage::Register { auth0 }, accepted);
            &&& next.1 matches Step::Ask(Stage::Issue, Request::IssueToken { .. })
            &&& next.0.registered matches Some(registered) && registered.endpoint_id == cfg.endpoint
            &&& step_spec(cfg, next.0, Stage::Issue, reply).0 == next.0
        }),
{
}

/// A person's sign-in counts as having tried to register exactly from the
/// moment at which it has a challenge to answer.
pub proof fn law_attempt_is_marked_with_its_challenge(cfg: &P2pConfig, cell: Registration, stage: Stage, reply: Reply)
    requires
        cfg.credential is Auth0,
        belongs(*cfg, stage),
        answers(stage, reply),
    ensures
        start_spec(cfg, cell).0.attempted == cell.attempted,
        step_spec(cfg, cell, stage, reply).0.attempted == (cell.attempted || (stage is RegisterChallenge && reply is Challenge)),
{
}

/// An accepted enrolment hands back its own token at once, and the slot is
/// this run's.
pub proof fn law_enrolment_brings_the_first_token(
    cfg: &P2pConfig,
    cell: Registration,
    attempted_before: bool,
    token: EndpointToken,
)
    requires
        cfg.credential is Enrollment,
    ensures
        ({
            let next = step_spec(cfg, cell, Stage::Enrol { attempted_before }, Reply::Token(token));
            &&& next.1 == Step::Done(Ok(token))
            &&& owes_slot(next.0)
            &&& next.0.registered->0.endpoint_id == cfg.endpoint
        }),
{
}

/// Being told that the Endpoint is already there leads to a renewal, and the
/// slot is this run's exactly where an earlier attempt of it may have made it.
pub proof fn law_conflict_leads_to_renewal(cfg: &P2pConfig, cell: Registration, attempted_before: bool, f: Failure)
    requires
        cfg.credential is Enrollment,
        already_registered_spec(f),
    ensures
        ({
            let next = step_spec(cfg, cell, Stage::Enrol { attempted_before }, Reply::Failed(f));
            &&& next.1 matches Step::Ask(stage, _) && renewing(stage)
            &&& owes_slot(next.0) == attempted_before
        }),
{
}

/// A slot is never taken by a person's sign-in, whatever the answers are.
pub proof fn law_sign_in_takes_no_slot<'a>(cfg: &'a P2pConfig, cell: Registration, stage: Stage, reply: Reply)
    requires
        cfg.credential is Auth0,
        belongs(*cfg, stage),
        answers(stage, reply),
    ensures
        owes_slot(start_spec(cfg, cell).0) == owes_slot(cell),
        owes_slot(step_spec(cfg, cell, stage, reply).0) ==> owes_slot(cell),
{
}

/// Every renewal sends the Gateway selector and the requested lifetime again,
/// and every issue sends the whole narrowing.
pub proof fn law_narrowing_reaches_the_wire<'a>(cfg: &'a P2pConfig, cell: Registration, stage: Stage, reply: Reply)
    requires
        belongs(*cfg, stage),
        answers(stage, reply),
    ensures
        match step_spec(cfg, cell, stage, reply).1 {
            Step::Ask(_, Request::IssueToken { narrowing, ttl, .. }) => narrowing == &cfg.narrowing && ttl
                == cfg.token_ttl,
            Step::Ask(_, Request::RefreshToken { gateways, ttl, .. }) => gateways == &cfg.narrowing.gateways && ttl
                == cfg.token_ttl,
            _ => true,
        },
        match start_spec(cfg, cell).1 {
            Step::Ask(_, Request::IssueToken { narrowing, ttl, .. }) => narrowing == &cfg.narrowing && ttl
                == cfg.token_ttl,
            _ => true,
        },
{
}

/// What the stage holds matches the sources that the credential has.
pub open spec fn evidenced(enrollment: Enrollment, stage: Stage) -> bool {
    match stage {
        Stage::EnrolAuth0 { .. } | Stage::RefreshAuth0 => enrollment.auth0 is Some,
        Stage::EnrolAssertion { auth0, .. } => (auth0 is Some <==> enrollment.auth0 is Some)
            && enrollment.assertion is Some,
        Stage::RefreshAssertion { auth0 } => (auth0 is Some <==> enrollment.auth0 is Some)
            && enrollment.assertion is Some,
        Stage::EnrolChallenge { auth0, assertion, .. } => (auth0 is Some <==> enrollment.auth0 is Some) && (assertion is Some
            <==> enrollment.assertion is Some),
        Stage::RefreshChallenge { auth0, assertion } => (auth0 is Some <==> enrollment.auth0 is Some) && (assertion is Some
            <==> enrollment.assertion is Some),
        _ => true,
    }
}

/// What the request carries matches the sources that the credential has.
pub open spec fn carries_evidence(enrollment: Enrollment, request: Request) -> bool {
    match request {
        Request::Enroll { assertion, auth0, .. } => (auth0 is Some <==> enrollment.auth0 is Some) && (assertion is Some
            <==> enrollment.assertion is Some),
        Request::RefreshToken { assertion, auth0, .. } => (auth0 is Some <==> enrollment.auth0 is Some) && (assertion is Some
            <==> enrollment.assertion is Some),
        _ => true,
    }
}

proof fn lemma_evidence<'a>(cfg: &'a P2pConfig, cell: Registration, now: Step<'a>, replies: Seq<Reply>)
    requires
        cfg.credential is Enrollment,
        now matches Step::Ask(stage, request) ==> !attended(stage) && evidenced(cfg.credential->0, stage)
            && carries_evidence(cfg.credential->0, request),
    ensures
        forall|i: int|
            0 <= i < asked(cfg, cell, now, replies).len() ==> carries_evidence(
                cfg.credential->0,
                #[trigger] asked(cfg, cell, now, replies)[i],
            ),
    decreases replies.len(),
{
    if let Step::Ask(stage, request) = now {
        if replies.len() > 0 && answers(stage, replies[0]) {
            let next = step_spec(cfg, cell, stage, replies[0]);
            lemma_evidence(cfg, next.0, next.1, replies.drop_first());
            let rest = asked(cfg, next.0, next.1, replies.drop_first());
            assert forall|i: int| 0 <= i < asked(cfg, cell, now, replies).len() implies carries_evidence(
                cfg.credential->0,
                #[trigger] asked(cfg, cell, now, replies)[i],
            ) by {
                if i > 0 {
                    assert(asked(cfg, cell, now, replies)[i] == rest[i - 1]);
                }
            }
        }
    }
}

/// In every attempt, an enrolment and a renewal carry an assertion exactly
/// where the credential has a source of them, and an Auth0 token likewise.
pub proof fn law_every_use_of_the_key_is_evidenced<'a>(cfg: &'a P2pConfig, cell: Registration, replies: Seq<Reply>)
    requires
        cfg.credential is Enrollment,
    ensures
        ({
            let begun = start_spec(cfg, cell);
            let requests = asked(cfg, begun.0, begun.1, replies);
            forall|i: int| 0 <= i < requests.len() ==> carries_evidence(cfg.credential->0, #[trigger] requests[i])
        }),
{
    let begun = start_spec(cfg, cell);
    lemma_evidence(cfg, begun.0, begun.1, replies);
}

/// The assertion that a request carries; no challenge has a place for one.
pub open spec fn assertion_of(request: Request) -> Option<String> {
    match request {
        Request::Enroll { assertion, .. } => assertion,
        Request::RefreshToken { assertion, .. } => assertion,
        Request::EnrollChallenge { key: _, auth0: _ } => None,
        Request::RefreshChallenge { key: _, auth0: _, endpoint_id: _ } => None,
        Request::RegisterChallenge { auth0: _ } => None,
        Request::Register { .. } | Request::IssueToken { .. } | Request::Auth0Token | Request::Assertion { .. } => None,
    }
}

/// In every attempt, the requests that carry an assertion are the enrolments
/// and the renewals themselves, where the credential has a source of them; no
/// challenge carries one.
pub proof fn law_assertion_goes_only_where_the_binding_is_checked<'a>(
    cfg: &'a P2pConfig,
    cell: Registration,
    replies: Seq<Reply>,
    i: int,
)
    requires
        cfg.credential is Enrollment,
        ({
            let begun = start_spec(cfg, cell);
            0 <= i < asked(cfg, begun.0, begun.1, replies).len()
        }),
    ensures
        ({
            let begun = start_spec(cfg, cell);
            let request = asked(cfg, begun.0, begun.1, replies)[i];
            assertion_of(request) is Some <==> (request is Enroll || request is RefreshToken)
                && cfg.credential->0.assertion is Some
        }),
{
    law_every_use_of_the_key_is_evidenced(cfg, cell, replies);
    let begun = start_spec(cfg, cell);
    assert(carries_evidence(cfg.credential->0, asked(cfg, begun.0, begun.1, replies)[i]));
}

/// The assertion that a stage holds for a later request.
pub open spec fn assertion_held(stage: Stage) -> Option<String> {
    match stage {
        Stage::EnrolChallenge { assertion, .. } => assertion,
        Stage::RefreshChallenge { assertion, .. } => assertion,
        _ => None,
    }
}

/// The text was given in answer to the last question for an assertion.
pub open spec fn just_minted(questions: Seq<Request>, replies: Seq<Reply>, text: String) -> bool {
    exists|j: int|
        #![trigger questions[j]]
        0 <= j < questions.len() && j < replies.len() && questions[j] is Assertion && replies[j] == Reply::Text(text) && (
        forall|k: int| j < k < questions.len() ==> !((#[trigger] questions[k]) is Assertion))
}

proof fn lemma_minted_earlier(questions: Seq<Request>, replies: Seq<Reply>, request: Request, reply: Reply, text: String)
    requires
        questions.len() == replies.len(),
        just_minted(questions, replies, text),
        !(request is Assertion),
    ensures
        just_minted(questions.push(request), replies.push(reply), text),
{
    let j = choose|j: int|
        #![trigger questions[j]]
        0 <= j < questions.len() && j < replies.len() && questions[j] is Assertion && replies[j] == Reply::Text(text) && (
        forall|k: int| j < k < questions.len() ==> !((#[trigger] questions[k]) is Assertion));
    let more = questions.push(request);
    assert(more[j] == questions[j]);
    assert(replies.push(reply)[j] == replies[j]);
    assert forall|k: int| j < k < more.len() implies !((#[trigger] more[k]) is Assertion) by {
        if k < questions.len() {
            assert(more[k] == questions[k]);
        }
    }
}

proof fn lemma_minted_with_rest(questions: Seq<Request>, replies: Seq<Reply>, rest: Seq<Reply>, text: String)
    requires
        just_minted(questions, replies, text),
    ensures
        just_minted(questions, replies + rest, text),
{
    let j = choose|j: int|
        #![trigger questions[j]]
        0 <= j < questions.len() && j < replies.len() && questions[j] is Assertion && replies[j] == Reply::Text(text) && (
        forall|k: int| j < k < questions.len() ==> !((#[trigger] questions[k]) is Assertion));
    assert((replies + rest)[j] == replies[j]);
    assert(questions[j] is Assertion);
}

proof fn lemma_minted<'a>(
    cfg: &'a P2pConfig,
    cell: Registration,
    now: Step<'a>,
    replies: Seq<Reply>,
    questions: Seq<Request<'a>>,
    answered: Seq<Reply>,
    i: int,
)
    requires
        cfg.credential is Enrollment,
        questions.len() == answered.len(),
        now matches Step::Ask(stage, request) ==> {
            &&& !attended(stage)
            &&& (stage is EnrolAssertion || stage is RefreshAssertion) <==> request is Assertion
            &&& (assertion_held(stage) matches Some(text) ==> just_minted(questions, answered, text))
            &&& (assertion_of(request) matches Some(text) ==> just_minted(questions, answered, text))
        },
        0 <= i < asked(cfg, cell, now, replies).len(),
        assertion_of(asked(cfg, cell, now, replies)[i]) is Some,
    ensures
        just_minted(
            questions + asked(cfg, cell, now, replies).take(i),
            answered + replies,
            assertion_of(asked(cfg, cell, now, replies)[i])->0,
        ),
    decreases replies.len(),
{
    let all = asked(cfg, cell, now, replies);
    if let Step::Ask(stage, request) = now {
        if i == 0 {
            assert(questions + all.take(0) =~= questions);
            lemma_minted_with_rest(questions, answered, replies, assertion_of(request)->0);
        } else {
            let reply = replies[0];
            let next = step_spec(cfg, cell, stage, reply);
            let rest = asked(cfg, next.0, next.1, replies.drop_first());
            let longer = questions.push(request);
            let given = answered.push(reply);
            assert(all =~= seq![request] + rest);
            if let Step::Ask(later, asks) = next.1 {
                if let Some(text) = assertion_held(later) {
                    if stage is EnrolAssertion || stage is RefreshAssertion {
                        assert(longer[questions.len() as int] is Assertion);
                        assert(given[questions.len() as int] == Reply::Text(text));
                        assert(just_minted(longer, given, text));
                    } else {
                        assert(assertion_held(stage) == Some(text));
                        lemma_minted_earlier(questions, answered, request, reply, text);
                    }
                }
                if let Some(text) = assertion_of(asks) {
                    assert(assertion_held(stage) == Some(text));
                    lemma_minted_earlier(questions, answered, request, reply, text);
                }
            }
            lemma_minted(cfg, next.0, next.1, replies.drop_first(), longer, given, i - 1);
            assert(longer + rest.take(i - 1) =~= questions + all.take(i));
            assert(given + replies.drop_first() =~= answered + replies);
            assert(all[i] == rest[i - 1]);
        }
    }
}

/// Every assertion that is sent was minted for it: it is the answer to the last
/// question for one that the same attempt asked before.
pub proof fn law_every_assertion_is_minted_afresh<'a>(cfg: &'a P2pConfig, cell: Registration, replies: Seq<Reply>, i: int)
    requires
        cfg.credential is Enrollment,
        ({
            let begun = start_spec(cfg, cell);
            let requests = asked(cfg, begun.0, begun.1, replies);
            0 <= i < requests.len() && assertion_of(requests[i]) is Some
        }),
    ensures
        ({
            let begun = start_spec(cfg, cell);
            let requests = asked(cfg, begun.0, begun.1, replies);
            just_minted(requests.take(i), replies, assertion_of(requests[i])->0)
        }),
{
    let begun = start_spec(cfg, cell);
    let requests = asked(cfg, begun.0, begun.1, replies);
    lemma_minted(cfg, begun.0, begun.1, replies, seq![], seq![], i);
    assert(Seq::<Request<'a>>::empty() + requests.take(i) =~= requests.take(i));
    assert(Seq::<Reply>::empty() + replies =~= replies);
}

/// Every assertion is asked for with the Identity API's own audience.
pub proof fn law_assertions_are_for_the_identity_api<'a>(cfg: &'a P2pConfig, cell: Registration, stage: Stage, reply: Reply)
    requires
        belongs(*cfg, stage),
        answers(stage, reply),
    ensures
        start_spec(cfg, cell).1 matches Step::Ask(_, Request::Assertion { audience }) ==> audience == IDENTITY_AUDIENCE,
        step_spec(cfg, cell, stage, reply).1 matches Step::Ask(_, Request::Assertion { audience }) ==> audience
            == IDENTITY_AUDIENCE,
{
}

/// Why a slot cannot be given back.
#[derive(Clone, Copy, Debug, PartialEq, Eq, Structural)]
pub enum ReleaseError {
    /// The Endpoint is a device's identity and was not enrolled with a key.
    NotEnrolled,
}

impl ReleaseError {
    /// The error in words.
    pub fn message(&self) -> (text: String)
        ensures
            text@ == "only an Endpoint enrolled with a key can return its own slot"@,
    {
        "only an Endpoint enrolled with a key can return its own slot".to_owned()
    }
}

/// What is sent to give a slot back.
pub struct Revocation<'a> {
    /// The Enrollment Key that the slot was taken with.
    pub key: &'a String,
    /// The Endpoint that is given up; its keypair proves the request.
    pub endpoint_id: &'a String,
    /// Why; the Identity API writes that itself where nothing is said.
    pub reason: Option<&'a str>,
    /// Evidence for the key's binding, which nothing is obtained with here.
    pub assertion: Option<&'a str>,
}

/// The slot that this run has to give back, as the one request that does so:
/// only the run that took one owes one, and only an Enrollment Key takes one.
/// The request carries the key and the keypair's Endpoint, and neither a reason
/// nor evidence.
pub fn release_enrollment<'a>(cfg: &'a P2pConfig, cell: &Registration) -> (r: Result<Option<Revocation<'a>>, ReleaseError>)
    ensures
        match cfg.credential {
            Credential::Auth0 { .. } => r == Err::<Option<Revocation<'a>>, ReleaseError>(ReleaseError::NotEnrolled),
            Credential::Enrollment(enrollment) => r == Ok::<Option<Revocation<'a>>, ReleaseError>(
                if owes_slot(*cell) {
                    Some(
                        Revocation {
                            key: &enrollment.key,
                            endpoint_id: &cfg.endpoint,
                            reason: None,
                            assertion: None,
                        },
                    )
                } else {
                    None
                },
            ),
        },
{
    match &cfg.credential {
        Credential::Enrollment(enrollment) => {
            if cell.registered_here() {
                Ok(
                    Some(
                        Revocation {
                            key: &enrollment.key,
                            endpoint_id: &cfg.endpoint,
                            reason: None,
                            assertion: None,
                        },
                    ),
                )
            } else {
                Ok(None)
            }
        },
        Credential::Auth0 { token: _, source: _, register: _ } => Err(ReleaseError::NotEnrolled),
    }
}

/// Whether a slot was given back, from the answer to the revocation, where one
/// was sent.
pub fn released(answer: Option<Result<(), Failure>>) -> (r: Result<bool, Failure>)
    ensures
        r == (match answer {
            None => Ok(false),
            Some(Ok(_)) => Ok(true),
            Some(Err(f)) => Err(f),
        }),
{
    match answer {
        None => Ok(false),
        Some(Ok(())) => Ok(true),
        Some(Err(f)) => Err(f),
    }
}

/// How long before a token expires to replace it, in seconds.
pub const RENEW_MARGIN: u64 = 60;

/// The shortest time between two renewals, in seconds.
pub const RENEW_MIN: u64 = 30;

/// How often to renew a token whose lifetime is not known, in seconds.
pub const RENEW_UNKNOWN: u64 = 240;

/// How often to ask again after a refusal that only a person can lift, in seconds.
pub const REFUSED_RETRY: u64 = 300;

/// When to renew, in seconds.
pub open spec fn renew_secs(expires_in: Option<i64>) -> int {
    match expires_in {
        None => RENEW_UNKNOWN as int,
        Some(lifetime) => {
            if lifetime - RENEW_MARGIN < RENEW_MIN {
                RENEW_MIN as int
            } else {
                lifetime - RENEW_MARGIN
            }
        },
    }
}

/// When to renew, given the lifetime that was stated for the token.
pub fn renew_delay(expires_in: Option<i64>) -> (d: Duration)
    ensures
        d.nanos == renew_secs(expires_in) * 1_000_000_000,
{
    match expires_in {
        None => Duration::from_secs(RENEW_UNKNOWN),
        Some(lifetime) => {
            if lifetime < 90 {
                Duration::from_secs(RENEW_MIN)
            } else {
                Duration::from_secs((lifetime - 60) as u64)
            }
        },
    }
}

/// How long to wait after so many failures in a row, in seconds: doubling from
/// the shortest, up to the interval for an unknown lifetime.
pub open spec fn retry_secs(failures: int) -> int {
    let doublings = if failures < 1 {
        0
    } else if failures > 9 {
        8
    } else {
        failures - 1
    };
    let wait = RENEW_MIN * pow2(doublings as nat);
    if wait > RENEW_UNKNOWN {
        RENEW_UNKNOWN as int
    } else {
        wait
    }
}

/// How long to wait after so many failures in a row.
pub fn retry_delay(failures: u32) -> (d: Duration)
    ensures
        d.nanos == retry_secs(failures as int) * 1_000_000_000,
{
    proof {
        lemma2_to64();
    }
    let secs: u64 = if failures <= 1 {
        30
    } else if failures == 2 {
        60
    } else if failures == 3 {
        120
    } else {
        240
    };
    proof {
        if failures > 4 {
            let doublings: nat = if failures > 9 {
                8
            } else {
                (failures - 1) as nat
            };
            lemma_pow2_strictly_increases(3, doublings);
        }
    }
    Duration::from_secs(secs)
}

/// A token that states a lifetime long enough is replaced the whole margin
/// before it lapses, and no earlier.
pub proof fn law_replaced_a_margin_before_it_lapses(lifetime: i64)
    requires
        lifetime >= RENEW_MARGIN + RENEW_MIN,
    ensures
        renew_secs(Some(lifetime)) + RENEW_MARGIN == lifetime,
{
}

/// No lifetime, stated or not, makes renewals closer together than the floor.
pub proof fn law_renewals_are_never_a_busy_loop(expires_in: Option<i64>)
    ensures
        renew_secs(expires_in) >= RENEW_MIN,
{
}

/// Waiting never gets shorter as failures pile up, and stays within its bounds.
pub proof fn law_retries_back_off(fewer: int, more: int)
    requires
        fewer <= more,
    ensures
        RENEW_MIN <= retry_secs(fewer) <= retry_secs(more) <= RENEW_UNKNOWN,
{
    lemma2_to64();
}

/// What to say after a renewal was tried.
#[derive(Clone, Copy, Debug, PartialEq, Eq, Structural)]
pub enum Report {
    /// It was renewed.
    Renewed,
    /// It was refused for good; said once.
    Refused,
    /// It is still refused, as was said before.
    StillRefused,
    /// It failed, for the `failures`th time in a row.
    Retrying { failures: u32 },
}

/// When the next renewal is due, and what has been said so far.
#[derive(Clone, Copy, Debug, PartialEq, Eq, Structural)]
pub struct TokenRenewal {
    /// How long to wait before the next attempt.
    pub delay: Duration,
    /// How many attempts in a row have failed.
    pub failures: u32,
    /// Whether the refusal in force has been reported.
    pub refused: bool,
}

/// What an attempt at a renewal brought.
pub enum Renewal {
    /// A token.
    Renewed { token: EndpointToken },
    /// A failure.
    Failed(Failure),
}

/// So many seconds.
pub open spec fn seconds(secs: int) -> Duration {
    Duration { nanos: (secs * 1_000_000_000) as u128 }
}

/// The schedule for a token with this lifetime, where it is known.
pub open spec fn scheduled(expires_in: Option<i64>) -> TokenRenewal {
    TokenRenewal { delay: seconds(renew_secs(expires_in)), failures: 0, refused: false }
}

/// The schedule after an attempt.
pub open spec fn rescheduled(before: TokenRenewal, outcome: Renewal) -> TokenRenewal {
    match outcome {
        Renewal::Renewed { token } => scheduled(Some(token.expires_in)),
        Renewal::Failed(f) => if is_permanent_spec(f) {
            TokenRenewal { delay: seconds(REFUSED_RETRY as int), failures: 0, refused: true }
        } else {
            let failures: u32 = if before.failures < u32::MAX {
                (before.failures + 1) as u32
            } else {
                u32::MAX
            };
            TokenRenewal { delay: seconds(retry_secs(failures as int)), failures, ..before }
        },
    }
}

/// What to say of an attempt.
pub open spec fn report_of(before: TokenRenewal, outcome: Renewal) -> Report {
    match outcome {
        Renewal::Renewed { .. } => Report::Renewed,
        Renewal::Failed(f) => if !is_permanent_spec(f) {
            Report::Retrying { failures: rescheduled(before, outcome).failures }
        } else if before.refused {
            Report::StillRefused
        } else {
            Report::Refused
        },
    }
}

/// The token that the proxy is given after an attempt, where it is given one.
pub open spec fn token_given(outcome: Renewal) -> Option<Seq<char>> {
    match outcome {
        Renewal::Renewed { token } => Some(token.endpoint_token@),
        Renewal::Failed(_) => None,
    }
}

impl TokenRenewal {
    /// The schedule for a token with this lifetime, where it is known.
    pub fn new(expires_in: Option<i64>) -> (r: Self)
        ensures
            r == scheduled(expires_in),
    {
        TokenRenewal { delay: renew_delay(expires_in), failures: 0, refused: false }
    }

    /// Take note of an attempt. Returns what to say of it, and the token to
    /// give to the proxy where there is a new one.
    ///
    /// A failure does not end the session: the token in force works until it
    /// expires. A refusal is reported once and asked about rarely; the count
    /// of other failures stops at its largest value.
    pub fn tried<'a>(&mut self, outcome: &'a Renewal) -> (r: (Report, Option<&'a str>))
        ensures
            *final(self) == rescheduled(*old(self), *outcome),
            r.0 == report_of(*old(self), *outcome),
            match token_given(*outcome) {
                Some(text) => r.1 matches Some(given) && given@ == text,
                None => r.1 is None,
            },
    {
        match outcome {
            Renewal::Renewed { token } => {
                self.failures = 0;
                self.refused = false;
                self.delay = renew_delay(Some(token.expires_in));
                (Report::Renewed, Some(token.endpoint_token.as_str()))
            },
            Renewal::Failed(f) => {
                if is_permanent(f) {
                    let said = if self.refused {
                        Report::StillRefused
                    } else {
                        Report::Refused
                    };
                    self.refused = true;
                    self.failures = 0;
                    self.delay = Duration::from_secs(REFUSED_RETRY);
                    (said, None)
                } else {
                    if self.failures < u32::MAX {
                        self.failures = self.failures + 1;
                    }
                    self.delay = retry_delay(self.failures);
                    (Report::Retrying { failures: self.failures }, None)
                }
            },
        }
    }
}

/// The schedule after one attempt after another.
pub open spec fn rescheduled_by(first: TokenRenewal, outcomes: Seq<Renewal>) -> TokenRenewal
    decreases outcomes.len(),
{
    if outcomes.len() == 0 {
        first
    } else {
        rescheduled(rescheduled_by(first, outcomes.drop_last()), outcomes.last())
    }
}

/// The token that the proxy holds after one attempt after another, if it held
/// `first` before them.
pub open spec fn token_after(first: Seq<char>, outcomes: Seq<Renewal>) -> Seq<char>
    decreases outcomes.len(),
{
    if outcomes.len() == 0 {
        first
    } else {
        match token_given(outcomes.last()) {
            Some(text) => text,
            None => token_after(first, outcomes.drop_last()),
        }
    }
}

/// A failure that is no refusal.
pub open spec fn passing_failure(outcome: Renewal) -> bool {
    outcome matches Renewal::Failed(f) && !is_permanent_spec(f)
}

/// How many failures that are no refusals come last, one after another.
pub open spec fn failures_in_a_row(outcomes: Seq<Renewal>) -> nat
    decreases outcomes.len(),
{
    if outcomes.len() == 0 || !passing_failure(outcomes.last()) {
        0
    } else {
        failures_in_a_row(outcomes.drop_last()) + 1
    }
}

proof fn lemma_failures_counted(expires_in: Option<i64>, outcomes: Seq<Renewal>)
    ensures
        rescheduled_by(scheduled(expires_in), outcomes).failures == (if failures_in_a_row(outcomes) < u32::MAX {
            failures_in_a_row(outcomes) as int
        } else {
            u32::MAX as int
        }),
    decreases outcomes.len(),
{
    if outcomes.len() > 0 {
        lemma_failures_counted(expires_in, outcomes.drop_last());
    }
}

/// However the renewals go, there is always a next one. It is due a margin
/// before the last token lapses where that was renewed last, rarely where it
/// was refused last, and otherwise by how many failures came one after another.
pub proof fn law_next_renewal_is_due_by_the_last_outcomes(expires_in: Option<i64>, outcomes: Seq<Renewal>)
    ensures
        rescheduled_by(scheduled(expires_in), outcomes).delay == (if outcomes.len() == 0 {
            seconds(renew_secs(expires_in))
        } else {
            match outcomes.last() {
                Renewal::Renewed { token } => seconds(renew_secs(Some(token.expires_in))),
                Renewal::Failed(f) => if is_permanent_spec(f) {
                    seconds(REFUSED_RETRY as int)
                } else {
                    seconds(retry_secs(failures_in_a_row(outcomes) as int))
                },
            }
        }),
{
    lemma_failures_counted(expires_in, outcomes);
}

/// The proxy holds the token of the last renewal that succeeded, and the one it
/// started with where none did: a failure never changes it.
pub proof fn law_proxy_holds_the_last_token(first: Seq<char>, outcomes: Seq<Renewal>, i: int)
    requires
        -1 <= i < outcomes.len(),
        i >= 0 ==> outcomes[i] is Renewed,
        forall|k: int| i < k < outcomes.len() ==> (#[trigger] outcomes[k]) is Failed,
    ensures
        token_after(first, outcomes) == (if i < 0 {
            first
        } else {
            outcomes[i]->token.endpoint_token@
        }),
    decreases outcomes.len(),
{
    if outcomes.len() > 0 && i < outcomes.len() - 1 {
        let rest = outcomes.drop_last();
        assert(outcomes[outcomes.len() - 1] is Failed);
        assert forall|k: int| i < k < rest.len() implies (#[trigger] rest[k]) is Failed by {
            assert(rest[k] == outcomes[k]);
        }
        law_proxy_holds_the_last_token(first, rest, i);
    }
}

/// A refusal is reported once: after one, no further failure of any kind is
/// reported as a first refusal until a renewal succeeds.
pub proof fn law_refusal_is_reported_once(first: TokenRenewal, refusal: Failure, outcome: Renewal)
    requires
        is_permanent_spec(refusal),
    ensures
        ({
            let before = rescheduled(first, Renewal::Failed(refusal));
            &&& report_of(before, outcome) != Report::Refused
            &&& outcome is Failed ==> rescheduled(before, outcome).refused
        }),
{
}

/// The challenge that a request answers, where it answers one.
pub open spec fn challenge_of(request: Request) -> Option<Challenge> {
    match request {
        Request::Register { challenge, .. } => Some(challenge),
        Request::Enroll { challenge, .. } => Some(challenge),
        Request::RefreshToken { challenge, .. } => Some(challenge),
        _ => None,
    }
}

/// The challenge that was received is the one that is answered, part by part,
/// and answering it is the very next thing: by registering, enrolling or
/// renewing, as the challenge was asked for.
pub proof fn law_challenge_received_is_the_one_answered<'a>(
    cfg: &'a P2pConfig,
    cell: Registration,
    stage: Stage,
    received: Challenge,
)
    requires
        belongs(*cfg, stage),
        answers(stage, Reply::Challenge(received)),
    ensures
        step_spec(cfg, cell, stage, Reply::Challenge(received)).1 matches Step::Ask(_, request) && {
            &&& challenge_of(request) matches Some(answered) && answered.challenge_id@ == received.challenge_id@
                && answered.challenge@ == received.challenge@
            &&& request is Register <==> stage is RegisterChallenge
            &&& request is Enroll <==> stage is EnrolChallenge
            &&& request is RefreshToken <==> stage is RefreshChallenge
        },
{
}

/// Over a whole attempt, whatever the answers are: every request that answers a
/// challenge comes right after the reply that brought that challenge.
pub proof fn law_every_answered_challenge_was_just_received<'a>(
    cfg: &'a P2pConfig,
    cell: Registration,
    replies: Seq<Reply>,
    i: int,
)
    requires
        0 <= i < asked(cfg, start_spec(cfg, cell).0, start_spec(cfg, cell).1, replies).len(),
    ensures
        challenge_of(asked(cfg, start_spec(cfg, cell).0, start_spec(cfg, cell).1, replies)[i]) matches Some(answered) ==> 0 < i
            <= replies.len() && (replies[i - 1] matches Reply::Challenge(received) && received.challenge_id@
            == answered.challenge_id@ && received.challenge@ == answered.challenge@),
{
    let begun = start_spec(cfg, cell);
    assert(begun.1 matches Step::Ask(stage, request) && belongs(*cfg, stage) && challenge_of(request) is None);
    lemma_challenges(cfg, begun.0, begun.1, replies, i);
}

proof fn lemma_challenges<'a>(cfg: &'a P2pConfig, cell: Registration, now: Step<'a>, replies: Seq<Reply>, i: int)
    requires
        now matches Step::Ask(stage, _) ==> belongs(*cfg, stage),
        0 <= i < asked(cfg, cell, now, replies).len(),
    ensures
        i == 0 ==> (now matches Step::Ask(_, request) && request == asked(cfg, cell, now, replies)[0]),
        i > 0 ==> (challenge_of(asked(cfg, cell, now, replies)[i]) matches Some(answered) ==> i <= replies.len()
            && replies[i - 1] == Reply::Challenge(answered)),
    decreases replies.len(),
{
    if let Step::Ask(stage, request) = now {
        if i > 0 {
            let next = step_spec(cfg, cell, stage, replies[0]);
            let rest = asked(cfg, next.0, next.1, replies.drop_first());
            assert(asked(cfg, cell, now, replies)[i] == rest[i - 1]);
            lemma_challenges(cfg, next.0, next.1, replies.drop_first(), i - 1);
            if i > 1 && challenge_of(rest[i - 1]) is Some {
                assert(replies.drop_first()[i - 2] == replies[i - 1]);
            }
        }
    }
}

/// Every request that follows an answer is made of the configuration, of what
/// earlier answers brought, and of that answer: nothing is changed on the way,
/// and nothing stands in for another.
pub proof fn law_request_carries_what_was_given<'a>(cfg: &'a P2pConfig, cell: Registration, stage: Stage, reply: Reply)
    requires
        belongs(*cfg, stage),
        answers(stage, reply),
    ensures
        step_spec(cfg, cell, stage, reply).1 matches Step::Ask(then_at, request) ==> match request {
            Request::Auth0Token => then_at is RefreshAuth0 && cfg.credential->0.auth0 is Some,
            Request::Assertion { audience } => audience@ == "isekai-identity"@ && cfg.credential->0.assertion is Some && match then_at {
                Stage::EnrolAssertion { auth0, .. } => stage is EnrolAuth0 && auth0 is Some && reply == Reply::Text(auth0->0),
                Stage::RefreshAssertion { auth0 } => match auth0 {
                    Some(token) => stage is RefreshAuth0 && reply == Reply::Text(token),
                    None => reply is Failed && cfg.credential->0.auth0 is None,
                },
                _ => false,
            },
            Request::RegisterChallenge { auth0 } => then_at == (Stage::RegisterChallenge { auth0 }) && stage is Auth0Token && reply
                == Reply::Text(auth0) && cell.registered is None && cfg.credential->register,
            Request::Register { auth0, challenge, device_name } => then_at == (Stage::Register { auth0 }) && stage
                == (Stage::RegisterChallenge { auth0 }) && reply == Reply::Challenge(challenge) && *device_name
                == cfg.device_name,
            Request::IssueToken { auth0, narrowing, ttl } => then_at is Issue && *narrowing == cfg.narrowing && ttl
                == cfg.token_ttl && ((stage is Auth0Token && reply == Reply::Text(auth0)) || stage == (Stage::Register { auth0 })
                || stage == (Stage::RegisterChallenge { auth0 })),
            Request::EnrollChallenge { key, auth0 } => *key == cfg.credential->0.key && match then_at {
                Stage::EnrolChallenge { auth0: kept, assertion, .. } => kept == auth0 && match stage {
                    Stage::EnrolAuth0 { .. } => auth0 is Some && reply == Reply::Text(auth0->0) && assertion is None,
                    Stage::EnrolAssertion { auth0: held, .. } => auth0 == held && assertion is Some && reply == Reply::Text(
                        assertion->0,
                    ),
                    _ => false,
                },
                _ => false,
            },
            Request::Enroll { key, assertion, auth0, challenge, device_name, ttl } => then_at is Enrol && *key
                == cfg.credential->0.key && *device_name == cfg.device_name && ttl == cfg.token_ttl && reply
                == Reply::Challenge(challenge) && (stage matches Stage::EnrolChallenge { auth0: a, assertion: b, .. } && a
                == auth0 && b == assertion),
            Request::RefreshChallenge { key, auth0, endpoint_id } => *key == cfg.credential->0.key && endpoint_id@
                == cfg.endpoint@ && match then_at {
                Stage::RefreshChallenge { auth0: kept, assertion } => kept == auth0 && match stage {
                    Stage::RefreshAuth0 => auth0 is Some && reply == Reply::Text(auth0->0) && assertion is None,
                    Stage::RefreshAssertion { auth0: held } => auth0 == held && assertion is Some && reply == Reply::Text(
                        assertion->0,
                    ),
                    _ => reply is Failed && auth0 is None && assertion is None,
                },
                _ => false,
            },
            Request::RefreshToken { key, assertion, auth0, challenge, gateways, ttl } => then_at is Refresh && *key
                == cfg.credential->0.key && *gateways == cfg.narrowing.gateways && ttl == cfg.token_ttl && reply
                == Reply::Challenge(challenge) && (stage matches Stage::RefreshChallenge { auth0: a, assertion: b } && a == auth0
                && b == assertion),
        },
{
}

/// The first request of an attempt: a person's own token is used only where
/// there is no source to ask for a current one, and an Enrollment Key goes with
/// the Endpoint of this keypair.
pub proof fn law_first_request_carries_what_was_given<'a>(cfg: &'a P2pConfig, cell: Registration)
    ensures
        start_spec(cfg, cell).1 matches Step::Ask(stage, request) ==> belongs(*cfg, stage) && match request {
            Request::Auth0Token => match cfg.credential {
                Credential::Auth0 { source, .. } => source is Some && stage is Auth0Token,
                Credential::Enrollment(enrollment) => enrollment.auth0 is Some && (stage is RefreshAuth0 <==> cell.registered is Some)
                    && (stage is EnrolAuth0 || stage is RefreshAuth0),
            },
            Request::Assertion { audience } => audience@ == "isekai-identity"@ && cfg.credential->0.auth0 is None
                && cfg.credential->0.assertion is Some && (match stage {
                Stage::EnrolAssertion { auth0, .. } => auth0 is None && cell.registered is None,
                Stage::RefreshAssertion { auth0 } => auth0 is None && cell.registered is Some,
                _ => false,
            }),
            Request::RegisterChallenge { auth0 } => stage == (Stage::RegisterChallenge { auth0 }) && auth0
                == cfg.credential->token && cfg.credential->source is None && cfg.credential->register
                && cell.registered is None,
            Request::IssueToken { auth0, narrowing, ttl } => stage is Issue && auth0 == cfg.credential->token
                && cfg.credential->source is None && *narrowing == cfg.narrowing && ttl == cfg.token_ttl,
            Request::EnrollChallenge { key, auth0 } => *key == cfg.credential->0.key && auth0 is None && cell.registered is None
                && (stage matches Stage::EnrolChallenge { auth0: a, assertion: b, .. } && a is None && b is None),
            Request::RefreshChallenge { key, auth0, endpoint_id } => *key == cfg.credential->0.key && auth0 is None && endpoint_id@
                == cfg.endpoint@ && cell.registered is Some && stage == (Stage::RefreshChallenge { auth0: None, assertion: None }),
            _ => false,
        },
        start_spec(cfg, cell).1 is Done <==> (cell.registered matches Some(registered) && registered.endpoint_id@ != cfg.endpoint@)
            && (match cfg.credential {
            Credential::Auth0 { source, register, .. } => register && source is None,
            Credential::Enrollment(_) => true,
        }),
        start_spec(cfg, cell).0.registered == cell.registered,
        cfg.credential is Enrollment ==> (start_spec(cfg, cell).0.attempted <==> cell.attempted || cell.registered is None),
{
}

/// How an attempt ends: a token is the one that was just received, and a
/// failure the one that was just reported, with what was being done. No failure
/// ends it that says that the Endpoint to be registered is already there.
pub proof fn law_attempt_ends_with_what_was_received<'a>(cfg: &'a P2pConfig, cell: Registration, stage: Stage, reply: Reply)
    requires
        belongs(*cfg, stage),
        answers(stage, reply),
    ensures
        step_spec(cfg, cell, stage, reply).1 matches Step::Done(result) ==> match result {
            Ok(token) => reply == Reply::Token(token),
            Err(IssueError::Failed(doing, f)) => reply == Reply::Failed(f) && match stage {
                Stage::Auth0Token | Stage::EnrolAuth0 { .. } | Stage::RefreshAuth0 => doing == Some(Doing::Auth0Token),
                Stage::EnrolAssertion { .. } | Stage::RefreshAssertion { .. } => doing == Some(Doing::Assertion),
                Stage::EnrolChallenge { .. } => doing == Some(Doing::EnrollChallenge),
                Stage::Enrol { .. } => doing == Some(Doing::Enroll),
                Stage::RefreshChallenge { .. } => doing == Some(Doing::RefreshChallenge),
                Stage::Refresh => doing == Some(Doing::Refresh),
                Stage::RegisterChallenge { .. } | Stage::Register { .. } | Stage::Issue => doing is None,
            },
            Err(IssueError::RegisteredElsewhere { registered, carried }) => stage is Auth0Token && reply is Text && carried
                == cfg.endpoint && registered != carried && cell.registered is Some && cell.registered->0.endpoint_id
                == registered,
            Err(IssueError::EnrolledElsewhere { .. }) => false,
        },
        reply is Token ==> step_spec(cfg, cell, stage, reply).1 is Done,
        reply matches Reply::Failed(Failure::Identity(error)) && error.status == Some(409u16) && (stage is RegisterChallenge
            || stage is Register || stage is EnrolAuth0 || stage is EnrolAssertion || stage is EnrolChallenge || stage is Enrol)
            ==> step_spec(cfg, cell, stage, reply).1 is Ask,
        reply matches Reply::Failed(Failure::Identity(error)) && error.status != Some(409u16) ==> step_spec(
            cfg,
            cell,
            stage,
            reply,
        ).1 is Done,
{
}

/// What is known of the Endpoint changes only where it was registered, or found
/// to be: by an accepted registration or enrolment, or by being told that it is
/// there while registering or enrolling. Then it is this keypair's Endpoint
/// that is known, and the slot is this run's where its own enrolment was
/// accepted or may have been before.
pub proof fn law_registration_is_noted_when_it_happens<'a>(cfg: &'a P2pConfig, cell: Registration, stage: Stage, reply: Reply)
    requires
        belongs(*cfg, stage),
        answers(stage, reply),
    ensures
        ({
            let after = step_spec(cfg, cell, stage, reply).0;
            let enrolling = stage is EnrolAuth0 || stage is EnrolAssertion || stage is EnrolChallenge || stage is Enrol;
            let found = reply matches Reply::Failed(f) && already_registered_spec(f);
            let happened = reply is Registered || (stage is Enrol && reply is Token) || (found && (enrolling
                || stage is RegisterChallenge || stage is Register));
            &&& !happened ==> after.registered == cell.registered
            &&& happened ==> after.registered is Some && after.registered->0.endpoint_id@ == cfg.endpoint@
            &&& happened ==> (after.registered->0.by_us <==> enrolling && (reply is Token || tried_before(stage)))
            &&& after.attempted <==> cell.attempted || (stage is RegisterChallenge && reply is Challenge)
        }),
{
}

/// Whether the run had tried to enrol before is settled as an attempt begins,
/// and does not change while it goes on.
pub proof fn law_earlier_tries_are_remembered<'a>(cfg: &'a P2pConfig, cell: Registration, stage: Stage, reply: Reply)
    requires
        cfg.credential is Enrollment,
        belongs(*cfg, stage),
        answers(stage, reply),
    ensures
        cell.registered is None ==> (start_spec(cfg, cell).1 matches Step::Ask(first, _) && tried_before(first)
            == cell.attempted && start_spec(cfg, cell).0.attempted),
        step_spec(cfg, cell, stage, reply).1 matches Step::Ask(later, _) ==> renewing(later) || tried_before(later)
            == tried_before(stage),
{
}

/// Only a refusal by the Identity API with status 403 is final, and only its
/// status 409 says that the Endpoint is there; what was being done changes
/// neither, and the words are nowhere looked at.
pub proof fn law_only_the_status_decides(error: IdentityError, text: String, inner: Failure)
    ensures
        is_permanent_spec(Failure::Identity(error)) <==> error.status == Some(403u16),
        !is_permanent_spec(Failure::Other(text)),
        is_permanent_spec(Failure::Context(text, Box::new(inner))) == is_permanent_spec(inner),
        is_permanent_spec(Failure::Caused(text, Box::new(inner))) == is_permanent_spec(inner),
        already_registered_spec(Failure::Identity(error)) <==> error.status == Some(409u16),
        !already_registered_spec(Failure::Other(text)),
        already_registered_spec(Failure::Context(text, Box::new(inner))) == already_registered_spec(inner),
        !already_registered_spec(Failure::Caused(text, Box::new(inner))),
        already_registered_spec(inner) ==> !is_permanent_spec(inner),
    decreases inner,
{
    reveal_with_fuel(is_permanent_spec, 2);
    reveal_with_fuel(already_registered_spec, 2);
    if let Failure::Context(below, next) = inner {
        law_only_the_status_decides(error, below, *next);
    }
}

/// The words of a failure begin with its outermost layer and end with those of
/// what lies beneath.
pub proof fn law_failure_in_words_keeps_every_layer(text: String, inner: Failure)
    ensures
        ({
            let whole = Failure::Context(text, Box::new(inner)).message_spec();
            &&& text@.is_prefix_of(whole)
            &&& whole.len() == text@.len() + 2 + inner.message_spec().len()
            &&& whole.skip(text@.len() + 2int) == inner.message_spec()
            &&& whole[text@.len() as int] == ':' && whole[text@.len() + 1int] == ' '
        }),
        Failure::Caused(text, Box::new(inner)).message_spec() == Failure::Context(text, Box::new(inner)).message_spec(),
{
    reveal_with_fuel(Failure::message_spec, 2);
    reveal_strlit(": ");
    let whole = Failure::Context(text, Box::new(inner)).message_spec();
    assert(whole =~= text@ + ": "@ + inner.message_spec());
    assert(whole.skip(text@.len() + 2int) =~= inner.message_spec());
}

/// A token is renewed a minute before it lapses, though never within half a
/// minute, and every four minutes where its lifetime is not known.
pub proof fn law_renewal_comes_a_minute_early(lifetime: i64)
    ensures
        renew_secs(None) == 240,
        lifetime >= 90 ==> renew_secs(Some(lifetime)) == lifetime - 60,
        lifetime < 90 ==> renew_secs(Some(lifetime)) == 30,
{
}

/// Each failure in a row doubles the wait, from half a minute up to four.
pub proof fn law_each_failure_doubles_the_wait(failures: int)
    ensures
        failures <= 1 ==> retry_secs(failures) == 30,
        failures >= 1 ==> retry_secs(failures + 1) == (if 2 * retry_secs(failures) < 240 {
            2 * retry_secs(failures)
        } else {
            240
        }),
{
    lemma2_to64();
    if failures >= 9 {
        assert(retry_secs(failures) == 240);
    }
}

/// How an attempt at a renewal changes the schedule: a token starts it anew, by
/// its own lifetime; a refusal is asked about every five minutes; and any other
/// failure counts, one more than before, and leaves what was said of a refusal.
/// What is said of it is what it was.
pub proof fn law_schedule_follows_the_attempt(before: TokenRenewal, outcome: Renewal)
    ensures
        ({
            let after = rescheduled(before, outcome);
            let said = report_of(before, outcome);
            match outcome {
                Renewal::Renewed { token } => {
                    &&& after.delay.nanos == renew_secs(Some(token.expires_in)) * 1_000_000_000
                    &&& after.failures == 0 && !after.refused
                    &&& said == Report::Renewed
                    &&& token_given(outcome) == Some(token.endpoint_token@)
                },
                Renewal::Failed(f) => {
                    &&& token_given(outcome) is None
                    &&& is_permanent_spec(f) ==> {
                        &&& after.delay.nanos == 300_000_000_000
                        &&& after.failures == 0 && after.refused
                        &&& before.refused ==> said == Report::StillRefused
                        &&& !before.refused ==> said == Report::Refused
                    }
                    &&& !is_permanent_spec(f) ==> {
                        &&& after.refused == before.refused
                        &&& before.failures < u32::MAX ==> after.failures == before.failures + 1
                        &&& before.failures == u32::MAX ==> after.failures == u32::MAX
                        &&& after.delay.nanos == retry_secs(after.failures as int) * 1_000_000_000
                        &&& said == Report::Retrying { failures: after.failures }
                    }
                },
            }
        }),
{
    if let Renewal::Failed(f) = outcome {
        if !is_permanent_spec(f) {
            law_retries_back_off(rescheduled(before, outcome).failures as int, rescheduled(before, outcome).failures as int);
        }
    }
}

/// Whose turn it is: an attempt comes alone exactly while no Endpoint is known
/// and it may register one; the turn is kept for as long as that holds and it
/// still has something to ask.
pub proof fn law_turn_is_kept_while_it_may_register(cfg: P2pConfig, cell: Registration, now: Step, caller: u64)
    ensures
        cell.registered is Some ==> turn_after(cfg, cell, now, caller) is None,
        now is Done ==> turn_after(cfg, cell, now, caller) is None,
        cell.registered is None && now is Ask && cfg.credential is Enrollment ==> turn_after(cfg, cell, now, caller) == Some(caller),
        cell.registered is None && now is Ask && cfg.credential is Auth0 ==> (turn_after(cfg, cell, now, caller) == Some(caller)
            <==> cfg.credential->register) && (turn_after(cfg, cell, now, caller) is Some ==> turn_after(cfg, cell, now, caller)
            == Some(caller)),
{
}

/// What was being done is said so that it can be told apart.
pub proof fn law_what_was_being_done_is_told_apart(a: Doing, b: Doing)
    requires
        a != b,
    ensures
        IssueError::doing_text(a) != IssueError::doing_text(b),
{
    reveal_strlit("could not obtain a current Auth0 token");
    reveal_strlit("could not mint a workload identity token for the Identity API");
    reveal_strlit("could not obtain an enrolment challenge");
    reveal_strlit("could not enrol this Endpoint");
    reveal_strlit("could not obtain a renewal challenge");
    reveal_strlit("could not renew the endpoint token");
    assert("could not obtain a current Auth0 token"@.len() == 38);
    assert("could not mint a workload identity token for the Identity API"@.len() == 61);
    assert("could not obtain an enrolment challenge"@.len() == 39);
    assert("could not enrol this Endpoint"@.len() == 29);
    assert("could not obtain a renewal challenge"@.len() == 36);
    assert("could not renew the endpoint token"@.len() == 34);
}

/// Every question can fail, and every question can be answered in one other
/// way: a source with a text, a request for a challenge with one, a
/// registration with its acceptance, and the rest with a token.
pub proof fn law_every_question_has_its_answers(stage: Stage, reply: Reply)
    ensures
        reply is Failed ==> answers(stage, reply),
        reply is Text ==> (answers(stage, reply) <==> stage is Auth0Token || stage is EnrolAuth0 || stage is EnrolAssertion
            || stage is RefreshAuth0 || stage is RefreshAssertion),
        reply is Challenge ==> (answers(stage, reply) <==> stage is RegisterChallenge || stage is EnrolChallenge
            || stage is RefreshChallenge),
        reply is Registered ==> (answers(stage, reply) <==> stage is Register),
        reply is Token ==> (answers(stage, reply) <==> stage is Issue || stage is Enrol || stage is Refresh),
{
}

/// A credential that was spent on another keypair is refused by naming the
/// Endpoint it was spent on first, and then the one that is carried now.
pub proof fn law_spent_credential_names_both_keypairs(enrolled: Seq<char>, carried: Seq<char>)
    ensures
        ({
            let text = enrolled_elsewhere_text(enrolled, carried);
            let first = "this Enrollment Key credential already enrolled "@;
            let second = ", but this config carries "@;
            &&& text.take(first.len() as int) == first
            &&& text.subrange(first.len() as int, (first.len() + enrolled.len()) as int) == enrolled
            &&& text.subrange(
                (first.len() + enrolled.len() + second.len()) as int,
                (first.len() + enrolled.len() + second.len() + carried.len()) as int,
            ) == carried
        }),
{
    let text = enrolled_elsewhere_text(enrolled, carried);
    let first = "this Enrollment Key credential already enrolled "@;
    let second = ", but this config carries "@;
    assert(text.take(first.len() as int) =~= first);
    assert(text.subrange(first.len() as int, (first.len() + enrolled.len()) as int) =~= enrolled);
    assert(text.subrange(
        (first.len() + enrolled.len() + second.len()) as int,
        (first.len() + enrolled.len() + second.len() + carried.len()) as int,
    ) =~= carried);
}

} // verus!
