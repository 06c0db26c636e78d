use isekai_p2p::auth::{from_fn, Auth0TokenSource, SourceError, StaticAuth0Token};
use isekai_p2p::auth0::{Auth0Config, Auth0Tokens, ErrorResponse, Exchange, RefreshError, TokenResponse};
use isekai_p2p::device_login::{
    default_interval, device_code_form, device_poll_form, start_device_login, DeviceCodeResponse, DeviceLoginError,
    DevicePoll, DeviceStep,
};
use isekai_p2p::duration::Duration;
use isekai_p2p::sign_in::{BrowserSignIn, RefreshingAuth0Token, SessionError, SignInState, TokenStep};

fn tokens(expires_at_unix: u64, refresh: Option<&str>) -> Auth0Tokens {
    Auth0Tokens {
        access_token: "access".to_owned(),
        refresh_token: refresh.map(str::to_owned),
        expires_at_unix,
        recorded_organization: None,
    }
}

#[test]
fn a_static_token_is_returned_as_is() {
    let source = StaticAuth0Token("header.payload.signature".to_owned());
    assert_eq!(source.auth0_token().unwrap(), "header.payload.signature");
}

#[test]
fn a_source_can_answer_differently_each_time() {
    let calls = std::sync::atomic::AtomicUsize::new(0);
    let source = from_fn(move || -> Result<String, SourceError> {
        let n = calls.fetch_add(1, std::sync::atomic::Ordering::Relaxed);
        Ok(format!("token-{n}"))
    });
    assert_eq!(source.auth0_token().unwrap(), "token-0");
    assert_eq!(source.auth0_token().unwrap(), "token-1");
}

#[test]
fn a_stale_token_with_no_refresh_token_says_to_sign_in_again() {
    let mut source = RefreshingAuth0Token::new(tokens(0, None));
    let TokenStep::Fail { error, signed_out } = source.auth0_token(1000) else {
        panic!("no way to refresh");
    };
    assert!(error.message().contains("sign in again"), "unhelpful error: {}", error.message());
    assert_eq!(signed_out.unwrap(), "signed out: the sign-in did not grant `offline_access`");
    // And it is not asked about again.
    let TokenStep::Fail { error: SessionError::Ended, signed_out: None } = source.auth0_token(0) else {
        panic!("the session has ended");
    };
}

#[test]
fn a_good_token_is_used_and_a_stale_one_refreshed() {
    let mut source = RefreshingAuth0Token::new(tokens(1000, Some("RT")));
    assert!(matches!(source.auth0_token(939), TokenStep::Use(token) if token == "access"));
    assert!(matches!(source.auth0_token(940), TokenStep::Refresh(token) if token == "RT"));

    // No new refresh token: the old one stays in use.
    let renewed = Auth0Tokens { access_token: "next".to_owned(), ..tokens(2000, None) };
    assert!(matches!(source.refreshed("RT".to_owned(), Ok(renewed)), TokenStep::Use(token) if token == "next"));
    assert_eq!(source.tokens.refresh_token.as_deref(), Some("RT"));
    assert!(matches!(source.auth0_token(1000), TokenStep::Use(token) if token == "next"));

    let renewed = tokens(3000, Some("RT2"));
    source.refreshed("RT".to_owned(), Ok(renewed));
    assert_eq!(source.tokens.refresh_token.as_deref(), Some("RT2"));
}

#[test]
fn only_a_session_that_ended_stops_asking() {
    let mut source = RefreshingAuth0Token::new(tokens(0, Some("RT")));
    let outcome = Err(RefreshError::Transient("later".to_owned()));
    let TokenStep::Fail { error, signed_out: None } = source.refreshed("RT".to_owned(), outcome) else {
        panic!("a failure");
    };
    assert_eq!(error.message(), "later");
    assert!(matches!(source.auth0_token(1000), TokenStep::Refresh(_)));

    let outcome = Err(RefreshError::SignInRequired("revoked".to_owned()));
    let TokenStep::Fail { error: _, signed_out: Some(text) } = source.refreshed("RT".to_owned(), outcome) else {
        panic!("a failure");
    };
    assert_eq!(text, "signed out: the Auth0 session has ended, sign in again: revoked");
    assert!(matches!(source.auth0_token(1000), TokenStep::Fail { .. }));
    assert_eq!(SessionError::Ended.message(), "the Auth0 session has ended; sign in again");
}

#[test]
fn tokens_are_handed_over_once() {
    let mut sign_in = BrowserSignIn::default();
    assert!(matches!(sign_in.state(), SignInState::SignedOut));
    assert!(!sign_in.start(), "nothing to stop");
    assert!(sign_in.start(), "the earlier one is stopped");
    sign_in.started(Ok("https://page".to_owned()));
    assert!(matches!(sign_in.state(), SignInState::Waiting { url } if url == "https://page"));
    sign_in.finished(Ok(tokens(1, None)));
    assert!(matches!(sign_in.state(), SignInState::SignedIn));
    assert!(sign_in.take_tokens().is_some());
    assert!(sign_in.take_tokens().is_none());
    assert!(sign_in.sign_out());
    assert!(!sign_in.sign_out());
    assert!(matches!(sign_in.state(), SignInState::SignedOut));
}

#[test]
fn a_person_who_is_signing_in_is_not_interrupted() {
    let mut sign_in = BrowserSignIn::restored();
    assert!(matches!(sign_in.state(), SignInState::SignedIn));
    sign_in.failed("ended".to_owned());
    assert!(matches!(sign_in.state(), SignInState::Failed(why) if why == "ended"));
    sign_in.started(Ok("u".to_owned()));
    sign_in.failed("late".to_owned());
    assert!(matches!(sign_in.state(), SignInState::Waiting { .. }));
    sign_in.finished(Err("no".to_owned()));
    assert!(matches!(sign_in.state(), SignInState::Failed(why) if why == "no"));
    sign_in.started(Err("no port".to_owned()));
    assert!(matches!(sign_in.state(), SignInState::Failed(why) if why == "no port"));
}

fn code_response(complete: Option<&str>) -> DeviceCodeResponse {
    DeviceCodeResponse {
        device_code: "DC".to_owned(),
        user_code: "UC".to_owned(),
        verification_uri: "https://v".to_owned(),
        verification_uri_complete: complete.map(str::to_owned),
        expires_in: 600,
        interval: default_interval(),
    }
}

fn started(complete: Option<&str>) -> isekai_p2p::device_login::DeviceLogin {
    start_device_login(Exchange { status: 200, reply: Ok(code_response(complete)), error: None }, 7).unwrap()
}

#[test]
fn a_device_login_begins() {
    let login = started(None);
    assert_eq!(login.verification_uri_complete, "https://v");
    assert_eq!(started(Some("https://v?code=UC")).verification_uri_complete, "https://v?code=UC");
    assert_eq!(login.user_code, "UC");
    assert_eq!(login.expires_at, 600_000_000_007);
    assert_eq!(login.interval, Duration::from_secs(5));

    let cfg = Auth0Config::default();
    assert_eq!(device_code_form(&cfg).len(), 3);
    let form = device_poll_form(&cfg, &login);
    assert_eq!(
        form[0],
        ("grant_type".to_owned(), "urn:ietf:params:oauth:grant-type:device_code".to_owned())
    );
    assert_eq!(form[1], ("device_code".to_owned(), "DC".to_owned()));

    let failed = start_device_login(Exchange { status: 400, reply: Err(String::new()), error: None }, 7);
    assert_eq!(failed.unwrap_err().message(), "Auth0 refused the device login: HTTP 400 Bad Request");
    let failed = start_device_login(Exchange { status: 200, reply: Err("eof".to_owned()), error: None }, 7);
    assert_eq!(failed.unwrap_err().message(), "could not read the device code response: eof");
}

fn poll_error(error: &str) -> Exchange<TokenResponse> {
    Exchange {
        status: 403,
        reply: Err("not tokens".to_owned()),
        error: Some(ErrorResponse { error: error.to_owned(), error_description: None }),
    }
}

#[test]
fn a_device_login_is_polled() {
    let mut poll = DevicePoll::new(&started(None));
    assert_eq!(poll.due(600_000_000_006).unwrap(), Duration::from_secs(5));
    assert_eq!(
        poll.due(600_000_000_007).unwrap_err().message(),
        "the device code expired before the sign-in completed"
    );
    assert!(matches!(poll.poll_device_login(poll_error("authorization_pending"), 1), DeviceStep::Wait));
    assert_eq!(poll.interval, Duration::from_secs(5));
    assert!(matches!(poll.poll_device_login(poll_error("slow_down"), 1), DeviceStep::Wait));
    assert_eq!(poll.interval, Duration::from_secs(6));
    match poll.poll_device_login(poll_error("expired_token"), 1) {
        DeviceStep::Failed(e @ DeviceLoginError::Ended(_)) => {
            assert_eq!(e.message(), "Auth0 ended the device login: expired_token")
        }
        other => panic!("{other:?}"),
    }
    match poll.poll_device_login(Exchange { status: 500, reply: Err(String::new()), error: None }, 1) {
        DeviceStep::Failed(e) => {
            assert_eq!(e.message(), "Auth0 ended the device login: HTTP 500 Internal Server Error")
        }
        other => panic!("{other:?}"),
    }
    match poll.poll_device_login(Exchange { status: 200, reply: Err("eof".to_owned()), error: None }, 1) {
        DeviceStep::Failed(e) => assert_eq!(e.message(), "could not read the token response: eof"),
        other => panic!("{other:?}"),
    }
    let reply = TokenResponse { access_token: "AT".to_owned(), refresh_token: None, expires_in: 9, id_token: None };
    match poll.poll_device_login(Exchange { status: 200, reply: Ok(reply), error: None }, 1) {
        DeviceStep::Done(tokens) => assert_eq!(tokens.expires_at_unix, 10),
        other => panic!("{other:?}"),
    }
}
