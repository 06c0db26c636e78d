//! Signing in with a browser that comes back to a loopback port.

use crate::auth0::{
    add_field, countable, describe, describe_spec, fields, tokens_from, tokens_spec, Auth0Config, Auth0Tokens, Exchange,
    TokenResponse, CALLBACK_PORT_VAR,
};
use crate::codec::{base64url_encode, base64url_encoding, base64url_reading, is_urlsafe, random_bytes, sha256, sha256_of, utf8_lossy, utf8_lossy_spec};
use crate::text::{
    blank, decimal, decimal_spec, free_of, is_digit, is_white_space, join_spec, law_cut_at_the_first, law_decimal_reads_back,
    law_only_the_space_around_goes, lemma_decimal, lemma_leading_space_is, lemma_leading_word_is, lemma_position_is, parse_u16,
    parse_u16_spec, same, second_word, second_word_spec, split, split_once, split_once_spec, split_spec, trim, trim_spec, views,
};
use crate::urlcode::{
    is_plain, law_encoded_value_is_plain, law_plain_value_decodes_to_itself, law_urldecode_undoes_urlencode, urldecode,
    urldecode_spec, urlencode, urlencode_spec,
};
use vstd::prelude::*;
use vstd::string::StrSliceExecFns;
use vstd::utf8::encode_utf8;

verus! {

/// How long to wait for the first line of a request, in seconds.
pub const REQUEST_LINE_WAIT: u64 = 5;

/// How many bytes of a request are looked at for its first line.
pub const REQUEST_LINE_MAX: usize = 8192;

/// Why a port could not be pinned.
#[derive(Debug)]
pub enum PinnedPortError {
    /// It is not a port.
    NotAPort(String),
    /// It is zero, which is any port.
    Zero,
}

impl PinnedPortError {
    /// The error in words.
    pub open spec fn message_spec(self) -> Seq<char> {
        match self {
            PinnedPortError::NotAPort(raw) => CALLBACK_PORT_VAR@ + " is `"@ + raw@ + "`, which is not a port"@,
            PinnedPortError::Zero => CALLBACK_PORT_VAR@ + " is 0, which asks for any port"@,
        }
    }

    /// The error in words.
    pub fn message(&self) -> (text: String)
        ensures
            text@ == self.message_spec(),
    {
        let mut text = CALLBACK_PORT_VAR.to_owned();
        match self {
            PinnedPortError::NotAPort(raw) => {
                text.push_str(" is `");
                text.push_str(raw.as_str());
                text.push_str("`, which is not a port");
            },
            PinnedPortError::Zero => {
                text.push_str(" is 0, which asks for any port");
            },
        }
        text
    }
}

/// The port that a text pins. White space around it does not count, and
/// nothing is no port; zero is refused, since it would pin nothing.
pub open spec fn pins(raw: Option<&str>, r: Result<Option<u16>, PinnedPortError>) -> bool {
    match raw {
        None => r matches Ok(None),
        Some(raw) => {
            let text = trim_spec(raw@);
            if text.len() == 0 {
                r matches Ok(None)
            } else {
                match parse_u16_spec(text) {
                    None => r matches Err(PinnedPortError::NotAPort(shown)) && shown@ == text,
                    Some(port) => if port == 0 {
                        r matches Err(PinnedPortError::Zero)
                    } else {
                        r matches Ok(Some(given)) && given == port
                    },
                }
            }
        },
    }
}

/// Read a pinned port.
pub fn parse_pinned_port(raw: Option<&str>) -> (r: Result<Option<u16>, PinnedPortError>)
    ensures
        pins(raw, r),
{
    let text = match raw {
        Some(raw) => trim(raw),
        None => {
            return Ok(None);
        },
    };
    if text.as_str().is_empty() {
        return Ok(None);
    }
    match parse_u16(text.as_str()) {
        None => Err(PinnedPortError::NotAPort(text)),
        Some(port) => {
            if port == 0 {
                Err(PinnedPortError::Zero)
            } else {
                Ok(Some(port))
            }
        },
    }
}

/// The port to listen on: the one that the configuration pins, else the one
/// that `variable` pins, else any.
pub fn pinned_port(cfg: &Auth0Config, variable: Option<&str>) -> (r: Result<Option<u16>, PinnedPortError>)
    ensures
        cfg.callback_port is Some ==> r == Ok::<Option<u16>, PinnedPortError>(cfg.callback_port),
        cfg.callback_port is None ==> pins(variable, r),
{
    if cfg.callback_port.is_some() {
        return Ok(cfg.callback_port);
    }
    parse_pinned_port(variable)
}

/// What was being done when the port could not be opened.
pub fn listening_context(pinned: Option<u16>) -> (text: String)
    ensures
        text@ == (match pinned {
            Some(port) => "open 127.0.0.1:"@ + decimal_spec(port as nat) + " for the sign-in to come back to ("@
                + CALLBACK_PORT_VAR@ + " pins it; something else holds it)"@,
            None => "open a loopback port for the sign-in to come back to"@,
        }),
{
    match pinned {
        Some(port) => {
            let mut text = "open 127.0.0.1:".to_owned();
            text.push_str(decimal(port as u128).as_str());
            text.push_str(" for the sign-in to come back to (");
            text.push_str(CALLBACK_PORT_VAR);
            text.push_str(" pins it; something else holds it)");
            text
        },
        None => "open a loopback port for the sign-in to come back to".to_owned(),
    }
}

/// A sign-in that is waiting for the browser.
pub struct BrowserLogin {
    /// The page to open.
    pub url: String,
    /// The secret that only this process knows.
    pub verifier: String,
    /// What the browser must bring back.
    pub state: String,
    /// Where it comes back to.
    pub redirect_uri: String,
}

/// Where the browser comes back to.
pub open spec fn redirect_uri_spec(port: u16) -> Seq<char> {
    "http://127.0.0.1:"@ + decimal_spec(port as nat) + "/callback"@
}

/// The page to open.
pub open spec fn authorize_url_spec(
    cfg: Auth0Config,
    redirect_uri: Seq<char>,
    challenge: Seq<char>,
    state: Seq<char>,
) -> Seq<char> {
    let url = cfg.url_spec("/authorize"@) + "?response_type=code&client_id="@ + urlencode_spec(cfg.client_id@)
        + "&redirect_uri="@ + urlencode_spec(redirect_uri) + "&scope="@ + urlencode_spec(cfg.scope@) + "&audience="@
        + urlencode_spec(cfg.audience@) + "&code_challenge="@ + challenge + "&code_challenge_method=S256&state="@
        + state;
    match cfg.organization {
        Some(org) => url + "&organization="@ + urlencode_spec(org@),
        None => url,
    }
}

/// The page to open.
pub fn authorize_url(cfg: &Auth0Config, redirect_uri: &str, challenge: &str, state: &str) -> (url: String)
    ensures
        url@ == authorize_url_spec(*cfg, redirect_uri@, challenge@, state@),
{
    let mut url = cfg.url("/authorize");
    url.push_str("?response_type=code&client_id=");
    url.push_str(urlencode(cfg.client_id.as_str()).as_str());
    url.push_str("&redirect_uri=");
    url.push_str(urlencode(redirect_uri).as_str());
    url.push_str("&scope=");
    url.push_str(urlencode(cfg.scope.as_str()).as_str());
    url.push_str("&audience=");
    url.push_str(urlencode(cfg.audience.as_str()).as_str());
    url.push_str("&code_challenge=");
    url.push_str(challenge);
    url.push_str("&code_challenge_method=S256&state=");
    url.push_str(state);
    if let Some(org) = &cfg.organization {
        url.push_str("&organization=");
        url.push_str(urlencode(org.as_str()).as_str());
    }
    url
}

/// The challenge that a verifier answers.
pub open spec fn challenge_spec(verifier: Seq<char>) -> Seq<char> {
    base64url_encoding(sha256_of(encode_utf8(verifier)))
}

/// The challenge that `verifier` answers: its digest, in base64.
pub fn challenge_for(verifier: &str) -> (challenge: String)
    ensures
        challenge@ == challenge_spec(verifier@),
        challenge@.len() == 43,
        forall|i: int| 0 <= i < challenge@.len() ==> is_urlsafe(#[trigger] challenge@[i]),
{
    base64url_encode(sha256(verifier.as_bytes()).as_slice())
}

/// The sign-in that two draws of random bytes make.
pub fn browser_login_from(cfg: &Auth0Config, port: u16, verifier: &[u8], state: &[u8]) -> (login: BrowserLogin)
    requires
        (4 * verifier@.len() + 2) / 3 <= isize::MAX,
        (4 * state@.len() + 2) / 3 <= isize::MAX,
    ensures
        login.redirect_uri@ == redirect_uri_spec(port),
        login.verifier@ == base64url_encoding(verifier@),
        login.state@ == base64url_encoding(state@),
        login.verifier@.len() == (4 * verifier@.len() + 2) / 3,
        login.state@.len() == (4 * state@.len() + 2) / 3,
        base64url_reading(login.verifier@) == Some(verifier@),
        base64url_reading(login.state@) == Some(state@),
        forall|i: int| 0 <= i < login.verifier@.len() ==> is_urlsafe(#[trigger] login.verifier@[i]),
        forall|i: int| 0 <= i < login.state@.len() ==> is_urlsafe(#[trigger] login.state@[i]),
        login.url@ == authorize_url_spec(
            *cfg,
            login.redirect_uri@,
            challenge_spec(login.verifier@),
            login.state@,
        ),
{
    let mut redirect_uri = "http://127.0.0.1:".to_owned();
    redirect_uri.push_str(decimal(port as u128).as_str());
    redirect_uri.push_str("/callback");
    let verifier = base64url_encode(verifier);
    let challenge = challenge_for(verifier.as_str());
    let state = base64url_encode(state);
    let url = authorize_url(cfg, redirect_uri.as_str(), challenge.as_str(), state.as_str());
    BrowserLogin { url, verifier, state, redirect_uri }
}

/// Begin a sign-in that comes back to `port`, with a new verifier of 32 random
/// bytes and a new state of 16.
///
/// The verifier has the 43 characters that are the least allowed, and neither
/// it nor the state needs encoding in a URL.
pub fn start_browser_login(cfg: &Auth0Config, port: u16) -> (login: BrowserLogin)
    ensures
        login.redirect_uri@ == redirect_uri_spec(port),
        exists|verifier: Seq<u8>|
            verifier.len() == 32 && login.verifier@ == #[trigger] base64url_encoding(verifier),
        exists|state: Seq<u8>| state.len() == 16 && login.state@ == #[trigger] base64url_encoding(state),
        login.verifier@.len() == 43,
        login.state@.len() == 22,
        forall|i: int| 0 <= i < login.verifier@.len() ==> is_urlsafe(#[trigger] login.verifier@[i]),
        forall|i: int| 0 <= i < login.state@.len() ==> is_urlsafe(#[trigger] login.state@[i]),
        login.url@ == authorize_url_spec(
            *cfg,
            login.redirect_uri@,
            challenge_spec(login.verifier@),
            login.state@,
        ),
{
    let verifier = random_bytes(32);
    let state = random_bytes(16);
    browser_login_from(cfg, port, verifier.as_slice(), state.as_slice())
}

/// The body of a reply to the browser.
pub open spec fn page_body(message: Seq<char>) -> Seq<char> {
    "<!doctype html><meta charset=utf-8><title>ISEKAI</title><link rel=icon href=\"data:,\"><body style=\"font:16px system-ui;margin:3rem\">"@
        + message + "</body>"@
}

/// A reply to the browser.
pub open spec fn page_spec(status: Seq<char>, message: Seq<char>) -> Seq<char> {
    "HTTP/1.1 "@ + status + "\r\nContent-Type: text/html; charset=utf-8\r\nContent-Length: "@ + decimal_spec(
        encode_utf8(page_body(message)).len(),
    ) + "\r\nConnection: close\r\n\r\n"@ + page_body(message)
}

/// A reply to the browser: a page that asks it for nothing further, with the
/// length that it has.
pub fn page(status: &str, message: &str) -> (reply: Vec<u8>)
    ensures
        reply@ == encode_utf8(page_spec(status@, message@)),
{
    let mut body =
        "<!doctype html><meta charset=utf-8><title>ISEKAI</title><link rel=icon href=\"data:,\"><body style=\"font:16px system-ui;margin:3rem\">".to_owned();
    body.push_str(message);
    body.push_str("</body>");
    let length = body.as_str().as_bytes().len();
    let mut text = "HTTP/1.1 ".to_owned();
    text.push_str(status);
    text.push_str("\r\nContent-Type: text/html; charset=utf-8\r\nContent-Length: ");
    text.push_str(decimal(length as u128).as_str());
    text.push_str("\r\nConnection: close\r\n\r\n");
    text.push_str(body.as_str());
    text.as_str().as_bytes_vec()
}

/// What the browser brought back.
pub struct Redirect {
    /// The authorization code.
    pub code: Option<Seq<char>>,
    /// The state.
    pub state: Option<Seq<char>>,
    /// The refusal.
    pub error: Option<Seq<char>>,
}

/// What one field of a query adds.
pub open spec fn with_field(r: Redirect, pair: Seq<char>) -> Redirect {
    match split_once_spec(pair, '=') {
        None => r,
        Some((name, value)) => {
            let value = urldecode_spec(value);
            if name == "code"@ {
                Redirect { code: Some(value), ..r }
            } else if name == "state"@ {
                Redirect { state: Some(value), ..r }
            } else if name == "error"@ {
                Redirect { error: Some(value), ..r }
            } else if name == "error_description"@ && r.error is Some {
                Redirect { error: Some(r.error->0 + ": "@ + value), ..r }
            } else {
                r
            }
        },
    }
}

/// What the fields of a query say, one after the other.
pub open spec fn with_fields(pairs: Seq<Seq<char>>) -> Redirect
    decreases pairs.len(),
{
    if pairs.len() == 0 {
        Redirect { code: None, state: None, error: None }
    } else {
        with_field(with_fields(pairs.drop_last()), pairs.last())
    }
}

/// The query of the target in the first line of a request.
pub open spec fn query_spec(line: Seq<char>) -> Seq<char> {
    match second_word_spec(line) {
        None => Seq::empty(),
        Some(target) => match split_once_spec(target, '?') {
            None => Seq::empty(),
            Some((_, query)) => query,
        },
    }
}

/// What the first line of a request brings back.
pub open spec fn redirect_spec(line: Seq<char>) -> Redirect {
    with_fields(split_spec(query_spec(line), '&'))
}

/// What a request means for the sign-in that waits for it.
#[derive(Debug, PartialEq, Eq)]
pub enum RedirectOutcome {
    /// Nothing: go on waiting.
    Waiting,
    /// The sign-in worked, and this is its code.
    Code(String),
    /// The sign-in was refused.
    Refused(String),
}

/// What a request means for a sign-in with this state, and what is shown.
pub open spec fn answer_spec(
    redirect: Redirect,
    state: Seq<char>,
    reply: Seq<u8>,
    outcome: RedirectOutcome,
) -> bool {
    if redirect.code is None && redirect.error is None {
        &&& outcome == RedirectOutcome::Waiting
        &&& reply == encode_utf8(page_spec("404 Not Found"@, "Nothing here."@))
    } else if redirect.state != Some(state) {
        &&& outcome == RedirectOutcome::Waiting
        &&& reply == encode_utf8(page_spec("400 Bad Request"@, "That sign-in did not start here."@))
    } else if redirect.error is Some {
        &&& outcome matches RedirectOutcome::Refused(error) && error@ == redirect.error->0
        &&& reply == encode_utf8(page_spec("400 Bad Request"@, "Sign-in failed. You can close this tab."@))
    } else {
        &&& outcome matches RedirectOutcome::Code(code) && code@ == redirect.code->0
        &&& reply == encode_utf8(page_spec("200 OK"@, "Signed in. You can close this tab."@))
    }
}

/// The optional string stands for the optional characters.
pub open spec fn stands_for(s: Option<String>, t: Option<Seq<char>>) -> bool {
    match (s, t) {
        (Some(s), Some(t)) => s@ == t,
        (None, None) => true,
        _ => false,
    }
}

/// Answer a request, by its first line.
///
/// A request that brings neither a code nor a refusal is not the browser
/// coming back; one with another state did not start here. Both are answered
/// and the wait goes on.
pub fn wait_for_the_redirect(login: &BrowserLogin, line: &str) -> (r: (Vec<u8>, RedirectOutcome))
    ensures
        answer_spec(redirect_spec(line@), login.state@, r.0@, r.1),
{
    let query = match second_word(line) {
        Some(target) => match split_once(target.as_str(), '?') {
            Some((_, query)) => query,
            None => String::new(),
        },
        None => String::new(),
    };
    let pairs = split(query.as_str(), '&');
    let mut code: Option<String> = None;
    let mut state: Option<String> = None;
    let mut error: Option<String> = None;
    let ghost all = split_spec(query@, '&');
    let mut i: usize = 0;
    while i < pairs.len()
        invariant
            i <= pairs@.len(),
            views(pairs@) == all,
            stands_for(code, with_fields(all.take(i as int)).code),
            stands_for(state, with_fields(all.take(i as int)).state),
            stands_for(error, with_fields(all.take(i as int)).error),
        decreases pairs@.len() - i,
    {
        proof {
            assert(all.take(i + 1).drop_last() =~= all.take(i as int));
            assert(views(pairs@)[i as int] == pairs@[i as int]@);
            assert(all.take(i + 1).last() == pairs@[i as int]@);
        }
        if let Some((name, value)) = split_once(pairs[i].as_str(), '=') {
            let value = urldecode(value.as_str());
            if same(name.as_str(), "code") {
                code = Some(value);
            } else if same(name.as_str(), "state") {
                state = Some(value);
            } else if same(name.as_str(), "error") {
                error = Some(value);
            } else if same(name.as_str(), "error_description") {
                if let Some(text) = &error {
                    let mut longer = text.clone();
                    longer.push_str(": ");
                    longer.push_str(value.as_str());
                    error = Some(longer);
                }
            }
        }
        i = i + 1;
    }
    proof {
        assert(all.take(i as int) =~= all);
        assert(query@ == query_spec(line@));
    }
    if code.is_none() && error.is_none() {
        return (page("404 Not Found", "Nothing here."), RedirectOutcome::Waiting);
    }
    let ours = match &state {
        Some(state) => *state == login.state,
        None => false,
    };
    if !ours {
        return (page("400 Bad Request", "That sign-in did not start here."), RedirectOutcome::Waiting);
    }
    if let Some(error) = error {
        return (
            page("400 Bad Request", "Sign-in failed. You can close this tab."),
            RedirectOutcome::Refused(error),
        );
    }
    match code {
        Some(code) => (page("200 OK", "Signed in. You can close this tab."), RedirectOutcome::Code(code)),
        None => (page("200 OK", "Signed in. You can close this tab."), RedirectOutcome::Code(String::new())),
    }
}

/// Where a line ends in `bytes`: at the first carriage return with a line feed
/// behind it.
pub open spec fn line_end(bytes: Seq<u8>, end: int) -> bool {
    &&& 0 <= end < bytes.len() - 1
    &&& bytes[end] == 13 && bytes[end + 1] == 10
    &&& forall|j: int| 0 <= j < end ==> !(#[trigger] bytes[j] == 13 && bytes[j + 1] == 10)
}

/// What a request's first bytes say.
#[derive(Debug, PartialEq, Eq)]
pub enum RequestLine {
    /// Its first line.
    Line(String),
    /// Not enough yet.
    More,
    /// There is no line in as much as is looked at.
    TooLong,
}

/// Look for the first line of a request in what has arrived so far.
pub fn request_line(arrived: &Vec<u8>) -> (r: RequestLine)
    ensures
        match r {
            RequestLine::Line(text) => exists|end: int| #[trigger] line_end(arrived@, end) && text@ == utf8_lossy_spec(
                arrived@.take(end),
            ),
            RequestLine::More => arrived@.len() < REQUEST_LINE_MAX && forall|end: int| !#[trigger] line_end(
                arrived@,
                end,
            ),
            RequestLine::TooLong => arrived@.len() >= REQUEST_LINE_MAX && forall|end: int| !#[trigger] line_end(
                arrived@,
                end,
            ),
        },
{
    let mut i: usize = 0;
    let n = arrived.len();
    while i < n && i + 1 < n
        invariant
            n == arrived@.len(),
            i <= n,
            forall|j: int| 0 <= j < i && j + 1 < n ==> !(#[trigger] arrived@[j] == 13 && arrived@[j + 1] == 10),
        decreases n - i,
    {
        if arrived[i] == 13 && arrived[i + 1] == 10 {
            let mut line: Vec<u8> = Vec::new();
            let mut k: usize = 0;
            while k < i
                invariant
                    k <= i <= arrived@.len(),
                    line@ == arrived@.take(k as int),
                decreases i - k,
            {
                line.push(arrived[k]);
                proof {
                    assert(arrived@.take(k + 1) =~= arrived@.take(k as int).push(arrived@[k as int]));
                }
                k = k + 1;
            }
            proof {
                assert(line_end(arrived@, i as int));
            }
            return RequestLine::Line(utf8_lossy(line.as_slice()));
        }
        i = i + 1;
    }
    proof {
        assert forall|end: int| !#[trigger] line_end(arrived@, end) by {
            if line_end(arrived@, end) {
                assert(arrived@[end] == 13 && arrived@[end + 1] == 10);
            }
        }
    }
    if n < REQUEST_LINE_MAX {
        RequestLine::More
    } else {
        RequestLine::TooLong
    }
}

/// The form that exchanges a code for tokens.
pub fn code_form(cfg: &Auth0Config, login: &BrowserLogin, code: &str) -> (form: Vec<(String, String)>)
    ensures
        fields(form@) == seq![
            ("grant_type"@, "authorization_code"@),
            ("client_id"@, cfg.client_id@),
            ("code"@, code@),
            ("redirect_uri"@, login.redirect_uri@),
            ("code_verifier"@, login.verifier@),
        ],
{
    let mut form: Vec<(String, String)> = Vec::new();
    add_field(&mut form, "grant_type", "authorization_code");
    add_field(&mut form, "client_id", cfg.client_id.as_str());
    add_field(&mut form, "code", code);
    add_field(&mut form, "redirect_uri", login.redirect_uri.as_str());
    add_field(&mut form, "code_verifier", login.verifier.as_str());
    proof {
        assert(fields(form@) =~= seq![
            ("grant_type"@, "authorization_code"@),
            ("client_id"@, cfg.client_id@),
            ("code"@, code@),
            ("redirect_uri"@, login.redirect_uri@),
            ("code_verifier"@, login.verifier@),
        ]);
    }
    form
}

/// Why a sign-in failed.
#[derive(Debug)]
pub enum LoginError {
    /// The browser came back with a refusal.
    SignInRefused(String),
    /// The code was refused.
    CodeRefused(String),
    /// The answer was not what was expected.
    Shape(String),
}

impl LoginError {
    /// The error in words.
    pub open spec fn message_spec(self) -> Seq<char> {
        match self {
            LoginError::SignInRefused(error) => "Auth0 refused the sign-in: "@ + error@,
            LoginError::CodeRefused(why) => "Auth0 refused the authorization code: "@ + why@,
            LoginError::Shape(why) => "Auth0 token response was not the expected shape: "@ + why@,
        }
    }

    /// The error in words.
    pub fn message(&self) -> (text: String)
        ensures
            text@ == self.message_spec(),
    {
        match self {
            LoginError::SignInRefused(error) => {
                let mut text = "Auth0 refused the sign-in: ".to_owned();
                text.push_str(error.as_str());
                text
            },
            LoginError::CodeRefused(why) => {
                let mut text = "Auth0 refused the authorization code: ".to_owned();
                text.push_str(why.as_str());
                text
            },
            LoginError::Shape(why) => {
                let mut text = "Auth0 token response was not the expected shape: ".to_owned();
                text.push_str(why.as_str());
                text
            },
        }
    }
}

/// What the answer to the exchange of a code means.
pub fn finish_browser_login(exchange: Exchange<TokenResponse>, now: u64) -> (r: Result<Auth0Tokens, LoginError>)
    requires
        exchange.wf(),
        countable(exchange, now),
    ensures
        if !exchange.succeeded() {
            r matches Err(LoginError::CodeRefused(why)) && why@ == describe_spec(exchange.error, exchange.status)
        } else {
            match exchange.reply {
                Ok(body) => r matches Ok(tokens) && tokens_spec(body, now, tokens),
                Err(text) => r matches Err(LoginError::Shape(why)) && why == text,
            }
        },
{
    if !exchange.is_success() {
        return Err(LoginError::CodeRefused(describe(&exchange.error, exchange.status)));
    }
    match exchange.reply {
        Ok(body) => Ok(tokens_from(body, now)),
        Err(text) => Err(LoginError::Shape(text)),
    }
}

/// A request that brings another state, or none, never yields a code and
/// never ends the wait.
pub proof fn law_wrong_state_is_ignored(line: Seq<char>, state: Seq<char>, reply: Seq<u8>, outcome: RedirectOutcome)
    requires
        redirect_spec(line).state != Some(state),
        answer_spec(redirect_spec(line), state, reply, outcome),
    ensures
        outcome == RedirectOutcome::Waiting,
{
}

/// The first line of the request with which a browser brings a code back.
pub open spec fn callback_line(code: Seq<char>, state: Seq<char>) -> Seq<char> {
    "GET "@ + ("/callback?"@ + callback_query(code, state)) + " HTTP/1.1"@
}

/// The query of that request.
pub open spec fn callback_query(code: Seq<char>, state: Seq<char>) -> Seq<char> {
    "code="@ + urlencode_spec(code) + "&"@ + ("state="@ + state)
}

/// A character that ends nothing: no white space, and none of the marks that
/// part a query.
pub open spec fn is_quiet(c: char) -> bool {
    !is_white_space(c) && c != '&' && c != '=' && c != '?'
}

/// The code that a browser brings back with the right state is the code that
/// the sign-in yields, whatever characters it has.
pub proof fn law_code_comes_back_off_the_redirect(
    code: Seq<char>,
    state: Seq<char>,
    reply: Seq<u8>,
    outcome: RedirectOutcome,
)
    requires
        forall|i: int| 0 <= i < state.len() ==> is_urlsafe(#[trigger] state[i]),
        answer_spec(redirect_spec(callback_line(code, state)), state, reply, outcome),
    ensures
        outcome matches RedirectOutcome::Code(given) && given@ == code,
{
    let encoded = urlencode_spec(code);
    law_encoded_value_is_plain(code);
    assert forall|i: int| 0 <= i < encoded.len() implies is_quiet(#[trigger] encoded[i]) by {
        assert(is_plain(encoded[i]));
    }
    assert forall|i: int| 0 <= i < state.len() implies is_quiet(#[trigger] state[i]) by {
        assert(is_urlsafe(state[i]));
    }
    let query = callback_query(code, state);
    lemma_query_of_the_callback(encoded, state);
    let first = "code="@ + encoded;
    let second = "state="@ + state;
    lemma_fields_of_the_callback(encoded, state);
    assert(split_spec(query, '&') == seq![first, second]);
    let none = Redirect { code: None, state: None, error: None };
    reveal_with_fuel(with_fields, 3);
    assert(seq![first, second].drop_last() =~= seq![first]);
    assert(seq![first].drop_last() =~= Seq::<Seq<char>>::empty());
    law_urldecode_undoes_urlencode(code);
    assert forall|i: int| 0 <= i < state.len() implies is_plain(#[trigger] state[i]) && state[i] != '%' by {
        assert(is_urlsafe(state[i]));
    }
    law_plain_value_decodes_to_itself(state);
    reveal_strlit("code");
    reveal_strlit("state");
    assert("code"@[0] != "state"@[0]);
    assert(with_field(none, first) == (Redirect { code: Some(code), ..none }));
    assert(with_fields(seq![first, second]) == (Redirect { code: Some(code), state: Some(state), error: None }));
}

proof fn lemma_query_of_the_callback(encoded: Seq<char>, state: Seq<char>)
    requires
        forall|i: int| 0 <= i < encoded.len() ==> is_quiet(#[trigger] encoded[i]),
        forall|i: int| 0 <= i < state.len() ==> is_quiet(#[trigger] state[i]),
    ensures
        ({
            let query = "code="@ + encoded + "&"@ + ("state="@ + state);
            query_spec("GET "@ + ("/callback?"@ + query) + " HTTP/1.1"@) == query
        }),
{
    reveal_strlit("GET ");
    reveal_strlit("/callback?");
    reveal_strlit(" HTTP/1.1");
    reveal_strlit("code=");
    reveal_strlit("state=");
    reveal_strlit("&");
    let query = "code="@ + encoded + "&"@ + ("state="@ + state);
    let target = "/callback?"@ + query;
    let line = "GET "@ + target + " HTTP/1.1"@;
    lemma_leading_space_is(line, 0);
    assert(line.skip(0) =~= line);
    lemma_leading_word_is(line, 3);
    let rest = line.skip(3);
    lemma_leading_space_is(rest, 1);
    let tail = rest.skip(1);
    assert(tail =~= target + " HTTP/1.1"@);
    assert forall|j: int| 0 <= j < target.len() implies !is_white_space(#[trigger] tail[j]) by {
        assert(tail[j] == target[j]);
        if j >= 10 {
            assert(target[j] == query[j - 10]);
            let k = j - 10;
            if k < 5 {
            } else if k < 5 + encoded.len() {
                assert(query[k] == encoded[k - 5]);
            } else if k == 5 + encoded.len() {
            } else if k < 12 + encoded.len() {
                assert(query[k] == "state="@[k - 6 - encoded.len()]);
            } else {
                assert(query[k] == state[k - 12 - encoded.len()]);
            }
        }
    }
    assert(tail[target.len() as int] == ' ');
    lemma_leading_word_is(tail, target.len() as int);
    assert(tail.take(target.len() as int) =~= target);
    assert(second_word_spec(line) == Some(target));
    lemma_position_is(target, '?', 9);
    assert(target.skip(10) =~= query);
}

proof fn lemma_fields_of_the_callback(encoded: Seq<char>, state: Seq<char>)
    requires
        forall|i: int| 0 <= i < encoded.len() ==> is_quiet(#[trigger] encoded[i]),
        forall|i: int| 0 <= i < state.len() ==> is_quiet(#[trigger] state[i]),
    ensures
        ({
            let first = "code="@ + encoded;
            let second = "state="@ + state;
            &&& split_spec(first + "&"@ + second, '&') == seq![first, second]
            &&& split_once_spec(first, '=') == Some(("code"@, encoded))
            &&& split_once_spec(second, '=') == Some(("state"@, state))
        }),
{
    reveal_strlit("code=");
    reveal_strlit("state=");
    reveal_strlit("&");
    reveal_strlit("code");
    reveal_strlit("state");
    let first = "code="@ + encoded;
    let second = "state="@ + state;
    let query = first + "&"@ + second;
    assert forall|j: int| 0 <= j < first.len() implies #[trigger] query[j] != '&' by {
        assert(query[j] == first[j]);
        if j >= 5 {
            assert(first[j] == encoded[j - 5]);
        }
    }
    lemma_position_is(query, '&', first.len() as int);
    assert(query.take(first.len() as int) =~= first);
    assert(query.skip(first.len() as int + 1) =~= second);
    assert forall|j: int| 0 <= j < second.len() implies #[trigger] second[j] != '&' by {
        if j >= 6 {
            assert(second[j] == state[j - 6]);
        }
    }
    lemma_position_is(second, '&', second.len() as int);
    assert(split_spec(second, '&') =~= seq![second]);
    assert(split_spec(query, '&') =~= seq![first, second]);
    lemma_position_is(first, '=', 4);
    assert(first.take(4) =~= "code"@);
    assert(first.skip(5) =~= encoded);
    lemma_position_is(second, '=', 5);
    assert(second.take(5) =~= "state"@);
    assert(second.skip(6) =~= state);
}

/// A port is pinned by its number, whatever white space stands around it; zero
/// is refused, and white space alone pins nothing.
pub proof fn law_port_is_pinned_by_its_number(
    before: Seq<char>,
    port: u16,
    after: Seq<char>,
    raw: &str,
    r: Result<Option<u16>, PinnedPortError>,
)
    requires
        blank(before),
        blank(after),
        pins(Some(raw), r),
    ensures
        raw@ == before + decimal_spec(port as nat) + after && port > 0 ==> r == Ok::<Option<u16>, PinnedPortError>(Some(port)),
        raw@ == before + decimal_spec(port as nat) + after && port == 0 ==> r == Err::<Option<u16>, PinnedPortError>(
            PinnedPortError::Zero,
        ),
        raw@ == before ==> r == Ok::<Option<u16>, PinnedPortError>(None),
        r matches Ok(Some(given)) ==> given > 0,
{
    lemma_decimal(port as nat);
    let text = decimal_spec(port as nat);
    assert(is_digit(text[0]));
    assert(is_digit(text[text.len() - 1]));
    law_only_the_space_around_goes(before, text, after);
    law_decimal_reads_back(port);
}

/// A query's field with a value, as it is written.
pub open spec fn written_field(name: Seq<char>, value: Seq<char>) -> Seq<char> {
    name + seq!['='] + urlencode_spec(value)
}

/// What a field of a query brings is what was written into it, under its own
/// name and no other; a description is added to the refusal before it, and a
/// field of another name, or without a value, brings nothing.
pub proof fn law_field_brings_what_was_written(r: Redirect, name: Seq<char>, value: Seq<char>)
    requires
        free_of(name, '='),
    ensures
        ({
            let after = with_field(r, written_field(name, value));
            &&& after.code == (if name == "code"@ {
                Some(value)
            } else {
                r.code
            })
            &&& after.state == (if name == "state"@ {
                Some(value)
            } else {
                r.state
            })
            &&& name == "error"@ ==> after.error == Some(value)
            &&& name == "error_description"@ && r.error is Some ==> after.error == Some(r.error->0 + ": "@ + value)
            &&& name == "error_description"@ && r.error is None ==> after.error is None
            &&& name != "error"@ && name != "error_description"@ ==> after.error == r.error
        }),
        with_field(r, name) == r,
{
    law_cut_at_the_first(name, '=', urlencode_spec(value));
    law_urldecode_undoes_urlencode(value);
    reveal_strlit("code");
    reveal_strlit("state");
    reveal_strlit("error");
    reveal_strlit("error_description");
    assert("code"@.len() == 4 && "state"@.len() == 5 && "error"@.len() == 5 && "error_description"@.len() == 17);
    assert("state"@[0] == 's' && "error"@[0] == 'e');
}

/// Fields are read one after the other, and of two of one name the later one
/// counts.
pub proof fn law_later_field_counts(pairs: Seq<Seq<char>>, value: Seq<char>)
    ensures
        with_fields(pairs.push(written_field("code"@, value))).code == Some(value),
        with_fields(pairs.push(written_field("state"@, value))).state == Some(value),
        with_fields(pairs.push(written_field("error"@, value))).error == Some(value),
        with_fields(Seq::<Seq<char>>::empty()) == (Redirect { code: None, state: None, error: None }),
{
    reveal_strlit("code");
    reveal_strlit("state");
    reveal_strlit("error");
    let before = with_fields(pairs);
    law_field_brings_what_was_written(before, "code"@, value);
    law_field_brings_what_was_written(before, "state"@, value);
    law_field_brings_what_was_written(before, "error"@, value);
    assert(pairs.push(written_field("code"@, value)).drop_last() =~= pairs);
    assert(pairs.push(written_field("state"@, value)).drop_last() =~= pairs);
    assert(pairs.push(written_field("error"@, value)).drop_last() =~= pairs);
    assert("state"@[0] == 's' && "error"@[0] == 'e' && "code"@[0] == 'c');
}

/// A request ends the wait exactly where it brings the state that was given
/// out, with a code or a refusal; a refusal counts before a code. A browser is
/// told that it worked exactly where it did.
pub proof fn law_request_ends_the_wait_only_with_the_state(
    redirect: Redirect,
    state: Seq<char>,
    reply: Seq<u8>,
    outcome: RedirectOutcome,
)
    requires
        answer_spec(redirect, state, reply, outcome),
    ensures
        outcome == RedirectOutcome::Waiting <==> redirect.state != Some(state) || (redirect.code is None && redirect.error is None),
        outcome is Refused <==> redirect.state == Some(state) && redirect.error is Some,
        outcome is Code <==> redirect.state == Some(state) && redirect.error is None && redirect.code is Some,
        outcome matches RedirectOutcome::Code(code) ==> redirect.code == Some(code@),
        outcome matches RedirectOutcome::Refused(error) ==> redirect.error == Some(error@),
        outcome is Code ==> reply == encode_utf8(page_spec("200 OK"@, "Signed in. You can close this tab."@)),
        redirect.code is None && redirect.error is None ==> reply == encode_utf8(
            page_spec("404 Not Found"@, "Nothing here."@),
        ),
{
}

/// The page to open asks the tenant with these fields, each with its own
/// value: a code is to come back to the redirect address, for this application,
/// scope and audience, with the challenge and the state as they are; and with
/// the organization exactly where one is configured.
pub proof fn law_page_carries_each_field(cfg: Auth0Config, redirect_uri: Seq<char>, challenge: Seq<char>, state: Seq<char>)
    ensures
        ({
            let asked = seq![
                "response_type=code"@,
                written_field("client_id"@, cfg.client_id@),
                written_field("redirect_uri"@, redirect_uri),
                written_field("scope"@, cfg.scope@),
                written_field("audience"@, cfg.audience@),
                "code_challenge="@ + challenge,
                "code_challenge_method=S256"@,
                "state="@ + state,
            ];
            let all = match cfg.organization {
                Some(org) => asked.push(written_field("organization"@, org@)),
                None => asked,
            };
            authorize_url_spec(cfg, redirect_uri, challenge, state) == cfg.url_spec("/authorize"@) + seq!['?'] + join_spec(
                all,
                seq!['&'],
            )
        }),
{
    reveal_strlit("?response_type=code&client_id=");
    reveal_strlit("&redirect_uri=");
    reveal_strlit("&scope=");
    reveal_strlit("&audience=");
    reveal_strlit("&code_challenge=");
    reveal_strlit("&code_challenge_method=S256&state=");
    reveal_strlit("&organization=");
    reveal_strlit("response_type=code");
    reveal_strlit("client_id");
    reveal_strlit("redirect_uri");
    reveal_strlit("scope");
    reveal_strlit("audience");
    reveal_strlit("code_challenge=");
    reveal_strlit("code_challenge_method=S256");
    reveal_strlit("state=");
    reveal_strlit("organization");
    let amp = seq!['&'];
    let base = cfg.url_spec("/authorize"@);
    let a = "response_type=code"@;
    let b = written_field("client_id"@, cfg.client_id@);
    let c = written_field("redirect_uri"@, redirect_uri);
    let d = written_field("scope"@, cfg.scope@);
    let e = written_field("audience"@, cfg.audience@);
    let f = "code_challenge="@ + challenge;
    let g = "code_challenge_method=S256"@;
    let h = "state="@ + state;
    assert(join_spec(seq![a], amp) == a);
    lemma_join_more(seq![a], b, amp);
    assert(seq![a].push(b) =~= seq![a, b]);
    assert(seq![a, b].push(c) =~= seq![a, b, c]);
    assert(seq![a, b, c].push(d) =~= seq![a, b, c, d]);
    assert(seq![a, b, c, d].push(e) =~= seq![a, b, c, d, e]);
    assert(seq![a, b, c, d, e].push(f) =~= seq![a, b, c, d, e, f]);
    assert(seq![a, b, c, d, e, f].push(g) =~= seq![a, b, c, d, e, f, g]);
    assert(seq![a, b, c, d, e, f, g].push(h) =~= seq![a, b, c, d, e, f, g, h]);
    lemma_join_more(seq![a, b], c, amp);
    lemma_join_more(seq![a, b, c], d, amp);
    lemma_join_more(seq![a, b, c, d], e, amp);
    lemma_join_more(seq![a, b, c, d, e], f, amp);
    lemma_join_more(seq![a, b, c, d, e, f], g, amp);
    lemma_join_more(seq![a, b, c, d, e, f, g], h, amp);
    let u1 = base + "?response_type=code&client_id="@ + urlencode_spec(cfg.client_id@);
    assert(u1 =~= base + seq!['?'] + (a + amp + b));
    let u2 = u1 + "&redirect_uri="@ + urlencode_spec(redirect_uri);
    assert(u2 =~= base + seq!['?'] + (a + amp + b + amp + c));
    let u3 = u2 + "&scope="@ + urlencode_spec(cfg.scope@);
    assert(u3 =~= base + seq!['?'] + (a + amp + b + amp + c + amp + d));
    let u4 = u3 + "&audience="@ + urlencode_spec(cfg.audience@);
    assert(u4 =~= base + seq!['?'] + (a + amp + b + amp + c + amp + d + amp + e));
    let u5 = u4 + "&code_challenge="@ + challenge;
    assert(u5 =~= base + seq!['?'] + (a + amp + b + amp + c + amp + d + amp + e + amp + f));
    let u6 = u5 + "&code_challenge_method=S256&state="@ + state;
    let all = a + amp + b + amp + c + amp + d + amp + e + amp + f + amp + g + amp + h;
    assert("&code_challenge_method=S256&state="@ =~= amp + g + amp + "state="@);
    assert(u6 =~= base + seq!['?'] + all);
    assert(join_spec(seq![a, b, c, d, e, f, g, h], amp) == all);
    if let Some(org) = cfg.organization {
        let o = written_field("organization"@, org@);
        lemma_join_more(seq![a, b, c, d, e, f, g, h], o, amp);
        assert(u6 + "&organization="@ + urlencode_spec(org@) =~= base + seq!['?'] + (all + amp + o));
    }
}

proof fn lemma_join_more(parts: Seq<Seq<char>>, one: Seq<char>, sep: Seq<char>)
    requires
        parts.len() > 0,
    ensures
        join_spec(parts.push(one), sep) == join_spec(parts, sep) + sep + one,
{
    assert(parts.push(one).drop_last() =~= parts);
}

/// The first line of a request ends at its first line break, whatever follows.
pub proof fn law_line_ends_at_the_first_break(line: Seq<u8>, rest: Seq<u8>, end: int)
    requires
        forall|j: int| 0 <= j < line.len() - 1 ==> !(#[trigger] line[j] == 13 && line[j + 1] == 10),
    ensures
        line_end(line + seq![13u8, 10u8] + rest, end) <==> end == line.len(),
        (line + seq![13u8, 10u8] + rest).take(line.len() as int) == line,
        !line_end(line, end),
{
    let all = line + seq![13u8, 10u8] + rest;
    assert(all.take(line.len() as int) =~= line);
    assert(all[line.len() as int] == 13 && all[line.len() + 1int] == 10);
    assert forall|j: int| 0 <= j < line.len() implies !(#[trigger] all[j] == 13 && all[j + 1] == 10) by {
        assert(all[j] == line[j]);
        if j < line.len() - 1 {
            assert(all[j + 1] == line[j + 1]);
        }
    }
    if line_end(all, end) && end < line.len() {
        assert(all[end] == 13);
    }
    if line_end(all, end) && end > line.len() {
        assert(all[line.len() as int] == 13);
    }
    if line_end(line, end) {
        assert(line[end] == 13);
    }
}

/// The address that a browser comes back to is on this machine, and its port
/// is the one that was given.
pub proof fn law_redirect_comes_back_to_the_port(port: u16)
    ensures
        ({
            let uri = redirect_uri_spec(port);
            &&& "http://127.0.0.1:"@.is_prefix_of(uri)
            &&& parse_u16_spec(uri.subrange(17, uri.len() - 9)) == Some(port)
            &&& uri.skip(uri.len() - 9) == "/callback"@
        }),
{
    reveal_strlit("http://127.0.0.1:");
    reveal_strlit("/callback");
    law_decimal_reads_back(port);
    let uri = redirect_uri_spec(port);
    assert(uri.subrange(17, uri.len() - 9) =~= decimal_spec(port as nat));
    assert(uri.skip(uri.len() - 9) =~= "/callback"@);
}

/// A reply to the browser has the status in its first line, the page after the
/// empty line, and the length in bytes that this page has.
pub proof fn law_page_states_its_own_length(status: Seq<char>, message: Seq<char>)
    ensures
        ({
            let text = page_spec(status, message);
            let body = page_body(message);
            &&& text.len() >= body.len()
            &&& text.skip(text.len() - body.len()) == body
            &&& text.subrange(9, 9 + status.len() as int) == status
            &&& text.take(text.len() - body.len()) == "HTTP/1.1 "@ + status
                + "\r\nContent-Type: text/html; charset=utf-8\r\nContent-Length: "@ + decimal_spec(encode_utf8(body).len())
                + "\r\nConnection: close\r\n\r\n"@
        }),
{
    reveal_strlit("HTTP/1.1 ");
    let text = page_spec(status, message);
    let body = page_body(message);
    assert(text.skip(text.len() - body.len()) =~= body);
    assert(text.subrange(9, 9 + status.len() as int) =~= status);
    assert(text.take(text.len() - body.len()) =~= "HTTP/1.1 "@ + status
        + "\r\nContent-Type: text/html; charset=utf-8\r\nContent-Length: "@ + decimal_spec(encode_utf8(body).len())
        + "\r\nConnection: close\r\n\r\n"@);
}

} // verus!
