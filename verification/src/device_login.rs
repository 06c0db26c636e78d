//! Signing in on another device, with a code that is typed there.

use crate::auth0::{
    add_field, countable, describe, describe_spec, fields, refusal, refusal_text, tokens_from, tokens_spec, Auth0Config,
    Auth0Tokens, Exchange, TokenResponse, DEVICE_CODE_GRANT,
};
use crate::duration::Duration;
use crate::text::same;
use vstd::prelude::*;

verus! {

/// How often to ask whether the sign-in is done, in seconds, where nothing
/// else is said.
pub fn default_interval() -> (secs: u64)
    ensures
        secs == 5,
{
    5
}

/// An answer that begins a device login.
pub struct DeviceCodeResponse {
    /// Names the login to Auth0.
    pub device_code: String,
    /// The code to type.
    pub user_code: String,
    /// Where to type it.
    pub verification_uri: String,
    /// The same, with the code filled in.
    pub verification_uri_complete: Option<String>,
    /// How long the code lasts, in seconds.
    pub expires_in: u64,
    /// How often to ask, in seconds.
    pub interval: u64,
}

/// A device login that is waiting for the person.
#[derive(Debug)]
pub struct DeviceLogin {
    /// The code to type.
    pub user_code: String,
    /// Where to type it.
    pub verification_uri: String,
    /// The same, with the code filled in where that can be had.
    pub verification_uri_complete: String,
    /// When the code expires, in nanoseconds since the Unix epoch.
    pub expires_at: u128,
    /// How often to ask.
    pub interval: Duration,
    /// Names the login to Auth0.
    pub device_code: String,
}

/// The form that begins a device login.
pub fn device_code_form(cfg: &Auth0Config) -> (form: Vec<(String, String)>)
    ensures
        fields(form@) == seq![("client_id"@, cfg.client_id@), ("scope"@, cfg.scope@), ("audience"@, cfg.audience@)],
{
    let mut form: Vec<(String, String)> = Vec::new();
    add_field(&mut form, "client_id", cfg.client_id.as_str());
    add_field(&mut form, "scope", cfg.scope.as_str());
    add_field(&mut form, "audience", cfg.audience.as_str());
    proof {
        assert(fields(form@) =~= seq![
            ("client_id"@, cfg.client_id@),
            ("scope"@, cfg.scope@),
            ("audience"@, cfg.audience@),
        ]);
    }
    form
}

/// The form that asks whether the sign-in is done.
pub fn device_poll_form(cfg: &Auth0Config, login: &DeviceLogin) -> (form: Vec<(String, String)>)
    ensures
        fields(form@) == seq![
            ("grant_type"@, DEVICE_CODE_GRANT@),
            ("device_code"@, login.device_code@),
            ("client_id"@, cfg.client_id@),
        ],
{
    let mut form: Vec<(String, String)> = Vec::new();
    add_field(&mut form, "grant_type", DEVICE_CODE_GRANT);
    add_field(&mut form, "device_code", login.device_code.as_str());
    add_field(&mut form, "client_id", cfg.client_id.as_str());
    proof {
        assert(fields(form@) =~= seq![
            ("grant_type"@, DEVICE_CODE_GRANT@),
            ("device_code"@, login.device_code@),
            ("client_id"@, cfg.client_id@),
        ]);
    }
    form
}

/// Why a device login failed.
#[derive(Debug)]
pub enum DeviceLoginError {
    /// It was refused at the start.
    Refused(String),
    /// The answer at the start could not be read.
    UnreadableCode(String),
    /// The code expired.
    Expired,
    /// It was ended.
    Ended(String),
    /// The answer with the tokens could not be read.
    UnreadableTokens(String),
}

impl DeviceLoginError {
    /// The error in words.
    pub open spec fn message_spec(self) -> Seq<char> {
        match self {
            DeviceLoginError::Refused(why) => "Auth0 refused the device login: "@ + why@,
            DeviceLoginError::UnreadableCode(why) => "could not read the device code response: "@ + why@,
            DeviceLoginError::Expired => "the device code expired before the sign-in completed"@,
            DeviceLoginError::Ended(why) => "Auth0 ended the device login: "@ + why@,
            DeviceLoginError::UnreadableTokens(why) => "could not read the token response: "@ + why@,
        }
    }

    /// The error in words.
    pub fn message(&self) -> (text: String)
        ensures
            text@ == self.message_spec(),
    {
        match self {
            DeviceLoginError::Refused(why) => {
                let mut text = "Auth0 refused the device login: ".to_owned();
                text.push_str(why.as_str());
                text
            },
            DeviceLoginError::UnreadableCode(why) => {
                let mut text = "could not read the device code response: ".to_owned();
                text.push_str(why.as_str());
                text
            },
            DeviceLoginError::Expired => "the device code expired before the sign-in completed".to_owned(),
            DeviceLoginError::Ended(why) => {
                let mut text = "Auth0 ended the device login: ".to_owned();
                text.push_str(why.as_str());
                text
            },
            DeviceLoginError::UnreadableTokens(why) => {
                let mut text = "could not read the token response: ".to_owned();
                text.push_str(why.as_str());
                text
            },
        }
    }
}

/// What the answer that begins a device login means. `now` is in nanoseconds
/// since the Unix epoch.
pub fn start_device_login(exchange: Exchange<DeviceCodeResponse>, now: u64) -> (r: Result<DeviceLogin, DeviceLoginError>)
    requires
        exchange.wf(),
    ensures
        if !exchange.succeeded() {
            r matches Err(DeviceLoginError::Refused(why)) && why@ == describe_spec(exchange.error, exchange.status)
        } else {
            match exchange.reply {
                Err(text) => r matches Err(DeviceLoginError::UnreadableCode(why)) && why == text,
                Ok(body) => r matches Ok(login) && {
                    &&& login.user_code == body.user_code
                    &&& login.verification_uri == body.verification_uri
                    &&& login.verification_uri_complete == (match body.verification_uri_complete {
                        Some(uri) => uri,
                        None => body.verification_uri,
                    })
                    &&& login.expires_at == now + body.expires_in * 1_000_000_000
                    &&& login.interval.nanos == body.interval * 1_000_000_000
                    &&& login.device_code == body.device_code
                },
            }
        },
{
    if !exchange.is_success() {
        return Err(DeviceLoginError::Refused(describe(&exchange.error, exchange.status)));
    }
    match exchange.reply {
        Err(text) => Err(DeviceLoginError::UnreadableCode(text)),
        Ok(body) => {
            let complete = match body.verification_uri_complete {
                Some(uri) => uri,
                None => body.verification_uri.clone(),
            };
            Ok(
                DeviceLogin {
                    user_code: body.user_code,
                    verification_uri: body.verification_uri,
                    verification_uri_complete: complete,
                    expires_at: now as u128 + body.expires_in as u128 * 1_000_000_000,
                    interval: Duration::from_secs(body.interval),
                    device_code: body.device_code,
                },
            )
        },
    }
}

/// How often to ask, and until when.
#[derive(Clone, Copy, Debug, PartialEq, Eq, Structural)]
pub struct DevicePoll {
    /// How long to wait before each question.
    pub interval: Duration,
    /// When the code expires, in nanoseconds since the Unix epoch.
    pub expires_at: u128,
}

/// What follows an answer.
#[derive(Debug)]
pub enum DeviceStep {
    /// Ask again later.
    Wait,
    /// The sign-in is done.
    Done(Auth0Tokens),
    /// It failed.
    Failed(DeviceLoginError),
}

/// An interval that is a second longer; the longest there is at most.
pub open spec fn slower(interval: Duration) -> Duration {
    if interval.nanos + 1_000_000_000 > u128::MAX {
        Duration { nanos: u128::MAX }
    } else {
        Duration { nanos: (interval.nanos + 1_000_000_000) as u128 }
    }
}

/// What follows an answer.
pub open spec fn device_step(
    before: DevicePoll,
    exchange: Exchange<TokenResponse>,
    now: u64,
    after: DevicePoll,
    step: DeviceStep,
) -> bool {
    if exchange.succeeded() {
        &&& after == before
        &&& match exchange.reply {
            Ok(body) => step matches DeviceStep::Done(tokens) && tokens_spec(body, now, tokens),
            Err(text) => step matches DeviceStep::Failed(DeviceLoginError::UnreadableTokens(why)) && why == text,
        }
    } else {
        match exchange.error {
            Some(e) => if e.error@ == "authorization_pending"@ {
                after == before && step is Wait
            } else if e.error@ == "slow_down"@ {
                after == (DevicePoll { interval: slower(before.interval), ..before }) && step is Wait
            } else {
                after == before && (step matches DeviceStep::Failed(DeviceLoginError::Ended(why)) && why@
                    == refusal_text(e))
            },
            None => after == before && (step matches DeviceStep::Failed(DeviceLoginError::Ended(why)) && why@
                == describe_spec(exchange.error, exchange.status)),
        }
    }
}

impl DevicePoll {
    /// Begin to ask about a login.
    pub fn new(login: &DeviceLogin) -> (p: Self)
        ensures
            p.interval == login.interval,
            p.expires_at == login.expires_at,
    {
        DevicePoll { interval: login.interval, expires_at: login.expires_at }
    }

    /// How long to wait before the next question, at `now` in nanoseconds
    /// since the Unix epoch; an expired code is not asked about.
    pub fn due(&self, now: u64) -> (r: Result<Duration, DeviceLoginError>)
        ensures
            now >= self.expires_at ==> r matches Err(DeviceLoginError::Expired),
            now < self.expires_at ==> r == Ok::<Duration, DeviceLoginError>(self.interval),
    {
        if now as u128 >= self.expires_at {
            Err(DeviceLoginError::Expired)
        } else {
            Ok(self.interval)
        }
    }

    /// Go on, after an answer; `now` is in seconds since the Unix epoch.
    pub fn poll_device_login(&mut self, exchange: Exchange<TokenResponse>, now: u64) -> (step: DeviceStep)
        requires
            exchange.wf(),
            countable(exchange, now),
        ensures
            device_step(*old(self), exchange, now, *final(self), step),
    {
        if exchange.is_success() {
            return match exchange.reply {
                Ok(body) => DeviceStep::Done(tokens_from(body, now)),
                Err(text) => DeviceStep::Failed(DeviceLoginError::UnreadableTokens(text)),
            };
        }
        match &exchange.error {
            Some(e) => {
                if same(e.error.as_str(), "authorization_pending") {
                    DeviceStep::Wait
                } else if same(e.error.as_str(), "slow_down") {
                    if self.interval.nanos <= u128::MAX - 1_000_000_000 {
                        self.interval = Duration { nanos: self.interval.nanos + 1_000_000_000 };
                    } else {
                        self.interval = Duration { nanos: u128::MAX };
                    }
                    DeviceStep::Wait
                } else {
                    DeviceStep::Failed(DeviceLoginError::Ended(refusal(e)))
                }
            },
            None => DeviceStep::Failed(DeviceLoginError::Ended(describe(&exchange.error, exchange.status))),
        }
    }
}

/// Questions never come faster than before, whatever the answers are.
pub proof fn law_polling_never_speeds_up(
    before: DevicePoll,
    exchange: Exchange<TokenResponse>,
    now: u64,
    after: DevicePoll,
    step: DeviceStep,
)
    requires
        device_step(before, exchange, now, after, step),
    ensures
        after.interval.nanos >= before.interval.nanos,
        after.expires_at == before.expires_at,
{
}

/// What an answer to a question means: tokens exactly where it succeeded and
/// could be read, and then its own; waiting exactly where it says that the
/// person is not done yet or that questions come too fast, and a second more
/// exactly in the second case; an end in every other.
pub proof fn law_wait_only_while_told_to(
    before: DevicePoll,
    exchange: Exchange<TokenResponse>,
    now: u64,
    after: DevicePoll,
    step: DeviceStep,
)
    requires
        device_step(before, exchange, now, after, step),
    ensures
        ({
            let success = 200 <= exchange.status <= 299;
            let pending = !success && exchange.error is Some && exchange.error->0.error@ == "authorization_pending"@;
            let hurried = !success && exchange.error is Some && exchange.error->0.error@ == "slow_down"@;
            &&& step is Done <==> success && exchange.reply is Ok
            &&& step matches DeviceStep::Done(tokens) ==> tokens.access_token@ == exchange.reply->Ok_0.access_token@
                && tokens.refresh_token == exchange.reply->Ok_0.refresh_token && tokens.expires_at_unix == now
                + exchange.reply->Ok_0.expires_in
            &&& step is Wait <==> pending || hurried
            &&& hurried && before.interval.nanos + 1_000_000_000 <= u128::MAX ==> after.interval.nanos
                == before.interval.nanos + 1_000_000_000
            &&& !hurried ==> after == before
            &&& step matches DeviceStep::Failed(why) ==> why is Ended || why is UnreadableTokens
            &&& step matches DeviceStep::Failed(why) ==> (why is Ended <==> !success)
        }),
{
    reveal_strlit("authorization_pending");
    reveal_strlit("slow_down");
    assert("authorization_pending"@.len() == 21 && "slow_down"@.len() == 9);
}

} // verus!
