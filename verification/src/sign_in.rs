//! A sign-in that goes on in the background, and a token that is kept current.

use crate::auth0::{stale, Auth0Tokens, RefreshError};
use vstd::prelude::*;

verus! {

/// How far a sign-in has got.
#[derive(Debug)]
pub enum SignInState {
    /// Nobody is signed in.
    SignedOut,
    /// The person has this page to open.
    Waiting { url: String },
    /// Somebody is signed in.
    SignedIn,
    /// The last one failed.
    Failed(String),
}

impl Default for SignInState {
    fn default() -> (s: Self)
        ensures
            s == SignInState::SignedOut,
    {
        SignInState::SignedOut
    }
}

/// A sign-in that goes on in the background.
pub struct BrowserSignIn {
    /// How far it has got.
    pub state: SignInState,
    /// Whether a background sign-in is running.
    pub running: bool,
    /// The tokens it brought, until they are taken.
    pub tokens: Option<Auth0Tokens>,
}

impl Default for BrowserSignIn {
    fn default() -> (s: Self)
        ensures
            s.state == SignInState::SignedOut,
            !s.running,
            s.tokens is None,
    {
        BrowserSignIn { state: SignInState::SignedOut, running: false, tokens: None }
    }
}

impl BrowserSignIn {
    /// A sign-in from an earlier run.
    pub fn restored() -> (s: Self)
        ensures
            s.state == SignInState::SignedIn,
            !s.running,
            s.tokens is None,
    {
        BrowserSignIn { state: SignInState::SignedIn, running: false, tokens: None }
    }

    /// How far it has got.
    pub fn state(&self) -> (state: &SignInState)
        ensures
            *state == self.state,
    {
        &self.state
    }

    /// Sign out; returns whether a background sign-in is to be stopped. Tokens
    /// that were not taken are kept.
    pub fn sign_out(&mut self) -> (stop: bool)
        ensures
            stop == old(self).running,
            final(self).state == SignInState::SignedOut,
            !final(self).running,
            final(self).tokens == old(self).tokens,
    {
        let stop = self.running;
        self.state = SignInState::SignedOut;
        self.running = false;
        stop
    }

    /// The session has ended. A person who is just signing in is not told.
    pub fn failed(&mut self, reason: String)
        ensures
            final(self).state == (if old(self).state is Waiting {
                old(self).state
            } else {
                SignInState::Failed(reason)
            }),
            final(self).running == old(self).running,
            final(self).tokens == old(self).tokens,
    {
        match &self.state {
            SignInState::Waiting { url: _ } => {},
            _ => {
                self.state = SignInState::Failed(reason);
            },
        }
    }

    /// The tokens, once.
    pub fn take_tokens(&mut self) -> (tokens: Option<Auth0Tokens>)
        ensures
            tokens == old(self).tokens,
            final(self).tokens is None,
            final(self).state == old(self).state,
            final(self).running == old(self).running,
    {
        self.tokens.take()
    }

    /// A background sign-in starts; returns whether an earlier one is to be
    /// stopped.
    pub fn start(&mut self) -> (stop: bool)
        ensures
            stop == old(self).running,
            final(self).running,
            final(self).state == old(self).state,
            final(self).tokens == old(self).tokens,
    {
        let stop = self.running;
        self.running = true;
        stop
    }

    /// The background sign-in has a page to open, or could not begin.
    pub fn started(&mut self, outcome: Result<String, String>)
        ensures
            final(self).state == (match outcome {
                Ok(url) => SignInState::Waiting { url },
                Err(reason) => SignInState::Failed(reason),
            }),
            final(self).running == old(self).running,
            final(self).tokens == old(self).tokens,
    {
        match outcome {
            Ok(url) => {
                self.state = SignInState::Waiting { url };
            },
            Err(reason) => {
                self.state = SignInState::Failed(reason);
            },
        }
    }

    /// The background sign-in is over.
    pub fn finished(&mut self, outcome: Result<Auth0Tokens, String>)
        ensures
            match outcome {
                Ok(tokens) => final(self).state == SignInState::SignedIn && final(self).tokens == Some(tokens),
                Err(reason) => final(self).state == SignInState::Failed(reason) && final(self).tokens
                    == old(self).tokens,
            },
            final(self).running == old(self).running,
    {
        match outcome {
            Ok(tokens) => {
                self.tokens = Some(tokens);
                self.state = SignInState::SignedIn;
            },
            Err(reason) => {
                self.state = SignInState::Failed(reason);
            },
        }
    }
}

/// Why there is no current token.
#[derive(Debug)]
pub enum SessionError {
    /// The session ended earlier.
    Ended,
    /// The token has expired and there is nothing to refresh it with.
    NoRefreshToken,
    /// The refresh failed.
    Refresh(RefreshError),
}

impl SessionError {
    /// The error in words.
    pub open spec fn message_spec(self) -> Seq<char> {
        match self {
            SessionError::Ended => "the Auth0 session has ended; sign in again"@,
            SessionError::NoRefreshToken => {
                "the Auth0 access token has expired and there is no refresh token (the login did not grant `offline_access`); sign in again"@
            },
            SessionError::Refresh(error) => error.message_spec(),
        }
    }

    /// The error in words.
    pub fn message(&self) -> (text: String)
        ensures
            text@ == self.message_spec(),
    {
        match self {
            SessionError::Ended => "the Auth0 session has ended; sign in again".to_owned(),
            SessionError::NoRefreshToken => {
                "the Auth0 access token has expired and there is no refresh token (the login did not grant `offline_access`); sign in again".to_owned()
            },
            SessionError::Refresh(error) => error.message(),
        }
    }
}

/// A token that is kept current.
pub struct RefreshingAuth0Token {
    /// The tokens in force.
    pub tokens: Auth0Tokens,
    /// Whether the session has ended.
    pub spent: bool,
}

/// What is to be done for a current token.
pub enum TokenStep {
    /// Use this one.
    Use(String),
    /// Refresh, with this.
    Refresh(String),
    /// There is none; where `signed_out` is given, say so to the person.
    Fail { error: SessionError, signed_out: Option<String> },
}

/// What is to be done for a current token.
pub open spec fn token_step(session: RefreshingAuth0Token, now: u64, after: RefreshingAuth0Token, step: TokenStep) -> bool {
    if session.spent {
        &&& after == session
        &&& step == (TokenStep::Fail { error: SessionError::Ended, signed_out: None })
    } else if !stale(session.tokens.expires_at_unix, now) {
        &&& after == session
        &&& step == TokenStep::Use(session.tokens.access_token)
    } else {
        match session.tokens.refresh_token {
            Some(token) => after == session && step == TokenStep::Refresh(token),
            None => {
                &&& after == (RefreshingAuth0Token { spent: true, ..session })
                &&& step matches TokenStep::Fail { error, signed_out } && error == SessionError::NoRefreshToken
                    && (signed_out matches Some(text) && text@
                    == "signed out: the sign-in did not grant `offline_access`"@)
            },
        }
    }
}

/// What follows a refresh.
pub open spec fn refreshed_spec(
    session: RefreshingAuth0Token,
    used: String,
    outcome: Result<Auth0Tokens, RefreshError>,
    after: RefreshingAuth0Token,
    step: TokenStep,
) -> bool {
    match outcome {
        Ok(renewed) => {
            &&& after.spent == session.spent
            &&& after.tokens == (Auth0Tokens {
                refresh_token: match renewed.refresh_token {
                    Some(token) => Some(token),
                    None => Some(used),
                },
                ..renewed
            })
            &&& step == TokenStep::Use(renewed.access_token)
        },
        Err(error) => {
            &&& after == (RefreshingAuth0Token { spent: session.spent || error is SignInRequired, ..session })
            &&& step matches TokenStep::Fail { error: SessionError::Refresh(given), signed_out } && given == error && (
            match signed_out {
                Some(text) => error is SignInRequired && text@ == "signed out: "@ + error.message_spec(),
                None => error is Transient,
            })
        },
    }
}

impl RefreshingAuth0Token {
    /// A session with these tokens.
    pub fn new(tokens: Auth0Tokens) -> (session: Self)
        ensures
            session.tokens == tokens,
            !session.spent,
    {
        RefreshingAuth0Token { tokens, spent: false }
    }

    /// What to do for a token that is good at `now`, in seconds since the Unix
    /// epoch. A session that has ended is not asked about again.
    pub fn auth0_token(&mut self, now: u64) -> (step: TokenStep)
        ensures
            token_step(*old(self), now, *final(self), step),
    {
        if self.spent {
            return TokenStep::Fail { error: SessionError::Ended, signed_out: None };
        }
        if !self.tokens.is_stale_at(now) {
            return TokenStep::Use(self.tokens.access_token.clone());
        }
        match &self.tokens.refresh_token {
            Some(token) => TokenStep::Refresh(token.clone()),
            None => {
                self.spent = true;
                TokenStep::Fail {
                    error: SessionError::NoRefreshToken,
                    signed_out: Some("signed out: the sign-in did not grant `offline_access`".to_owned()),
                }
            },
        }
    }

    /// Take note of a refresh with the refresh token `used`. Where the answer
    /// brought no new one, it stays in use.
    pub fn refreshed(&mut self, used: String, outcome: Result<Auth0Tokens, RefreshError>) -> (step: TokenStep)
        ensures
            refreshed_spec(*old(self), used, outcome, *final(self), step),
    {
        match outcome {
            Ok(renewed) => {
                let access = renewed.access_token.clone();
                let refresh_token = match renewed.refresh_token {
                    Some(token) => Some(token),
                    None => Some(used),
                };
                self.tokens = Auth0Tokens {
                    access_token: renewed.access_token,
                    recorded_organization: renewed.recorded_organization,
                    refresh_token,
                    expires_at_unix: renewed.expires_at_unix,
                };
                TokenStep::Use(access)
            },
            Err(error) => {
                let ended = match &error {
                    RefreshError::SignInRequired(_) => true,
                    RefreshError::Transient(_) => false,
                };
                let signed_out = if ended {
                    self.spent = true;
                    let mut text = "signed out: ".to_owned();
                    text.push_str(error.message().as_str());
                    Some(text)
                } else {
                    None
                };
                TokenStep::Fail { error: SessionError::Refresh(error), signed_out }
            },
        }
    }
}

/// Once a session has ended it stays ended, and asks Auth0 nothing more.
pub proof fn law_ended_session_stays_ended(
    session: RefreshingAuth0Token,
    now: u64,
    after: RefreshingAuth0Token,
    step: TokenStep,
)
    requires
        session.spent,
        token_step(session, now, after, step),
    ensures
        after == session,
        step is Fail,
{
}

/// A refresh never loses the means to refresh again.
pub proof fn law_refresh_token_is_kept(
    session: RefreshingAuth0Token,
    used: String,
    outcome: Result<Auth0Tokens, RefreshError>,
    after: RefreshingAuth0Token,
    step: TokenStep,
)
    requires
        session.tokens.refresh_token is Some,
        refreshed_spec(session, used, outcome, after, step),
    ensures
        after.tokens.refresh_token is Some,
{
}

/// A token is asked for only when the one in force is about to lapse.
pub proof fn law_good_token_is_not_refreshed(
    session: RefreshingAuth0Token,
    now: u64,
    after: RefreshingAuth0Token,
    step: TokenStep,
)
    requires
        token_step(session, now, after, step),
        step is Refresh,
    ensures
        stale(session.tokens.expires_at_unix, now),
        !session.spent,
{
}

/// What is done for a current token: the one in force is used exactly while
/// more than a minute of it is left; then it is refreshed with the session's
/// own refresh token, and the session ends exactly where it has none. Tokens
/// change only by a refresh, and a session never comes back to life by itself.
pub proof fn law_token_in_force_is_used_while_it_lasts(
    session: RefreshingAuth0Token,
    now: u64,
    after: RefreshingAuth0Token,
    step: TokenStep,
)
    requires
        token_step(session, now, after, step),
    ensures
        step is Use <==> !session.spent && session.tokens.expires_at_unix > now + 60,
        step matches TokenStep::Use(token) ==> token@ == session.tokens.access_token@,
        step is Refresh <==> !session.spent && session.tokens.expires_at_unix <= now + 60
            && session.tokens.refresh_token is Some,
        step matches TokenStep::Refresh(token) ==> token@ == session.tokens.refresh_token->0@,
        after.tokens == session.tokens,
        after.spent <==> session.spent || (session.tokens.expires_at_unix <= now + 60 && session.tokens.refresh_token is None),
        step matches TokenStep::Fail { signed_out, .. } ==> (signed_out is Some <==> after.spent && !session.spent),
{
}

/// What a refresh brings is what is used from then on: the next question is
/// answered with the new access token while that lasts, and after it with the
/// new refresh token, or with the one that was used where no new one came.
pub proof fn law_next_token_is_the_refreshed_one(
    session: RefreshingAuth0Token,
    used: String,
    renewed: Auth0Tokens,
    after: RefreshingAuth0Token,
    step: TokenStep,
    now: u64,
    later: RefreshingAuth0Token,
    next: TokenStep,
)
    requires
        !session.spent,
        refreshed_spec(session, used, Ok(renewed), after, step),
        token_step(after, now, later, next),
    ensures
        step matches TokenStep::Use(token) && token@ == renewed.access_token@,
        renewed.expires_at_unix > now + 60 ==> (next matches TokenStep::Use(token) && token@ == renewed.access_token@),
        renewed.expires_at_unix <= now + 60 ==> (next matches TokenStep::Refresh(token) && token@ == (if renewed.refresh_token is Some {
            renewed.refresh_token->0@
        } else {
            used@
        })),
        after.tokens.recorded_organization == renewed.recorded_organization,
{
}

/// A failed refresh changes no token. It ends the session exactly where only
/// signing in again helps, and only then is the person told.
pub proof fn law_failed_refresh_changes_no_token(
    session: RefreshingAuth0Token,
    used: String,
    error: RefreshError,
    after: RefreshingAuth0Token,
    step: TokenStep,
)
    requires
        !session.spent,
        refreshed_spec(session, used, Err(error), after, step),
    ensures
        after.tokens == session.tokens,
        after.spent <==> error is SignInRequired,
        step matches TokenStep::Fail { error: SessionError::Refresh(given), signed_out } && given == error && (signed_out is Some
            <==> error is SignInRequired),
{
}

} // verus!
