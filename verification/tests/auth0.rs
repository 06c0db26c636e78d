use base64::engine::general_purpose::URL_SAFE_NO_PAD;
use base64::Engine;
use isekai_p2p::auth0::{
    carry_name, describe, finish_browser_login, organization_from, organization_in, organization_of, page,
    parse_pinned_port, refresh_form, refresh_with, request_line, start_browser_login, tokens_from, urldecode, urlencode,
    wait_for_the_redirect, Auth0Config, Auth0Tokens, BrowserLogin, ErrorResponse, Exchange, Organization,
    OrganizationClaims, RefreshError, TokenOrganization, TokenResponse, CALLBACK_PORT_VAR, ORG_NAME_CLAIM,
    REFRESH_MARGIN,
};
use isekai_p2p::browser_login::{
    authorize_url, browser_login_from, challenge_for, code_form, listening_context, pinned_port, LoginError,
    RedirectOutcome, RequestLine,
};

fn unix_now() -> u64 {
    std::time::SystemTime::now().duration_since(std::time::UNIX_EPOCH).unwrap_or_default().as_secs()
}

fn test_config() -> Auth0Config {
    Auth0Config {
        domain: "seera-networks.jp.auth0.com".to_owned(),
        client_id: "test-client".to_owned(),
        audience: "https://masque.seera-networks.com/".to_owned(),
        scope: "openid profile email offline_access".to_owned(),
        organization: None,
        callback_port: None,
    }
}

fn get(login: &BrowserLogin, target: &str) -> (String, RedirectOutcome) {
    let (reply, outcome) = wait_for_the_redirect(login, &format!("GET {target} HTTP/1.1"));
    (String::from_utf8(reply).expect("text"), outcome)
}

#[test]
fn the_authorize_url_asks_for_what_the_tenant_depends_on() {
    let cfg = Auth0Config { organization: Some("org_abc".to_owned()), ..test_config() };
    let login = start_browser_login(&cfg, 38700);
    assert!(login.url.starts_with("https://seera-networks.jp.auth0.com/authorize?"));
    for wanted in [
        "response_type=code",
        "code_challenge_method=S256",
        "organization=org_abc",
        &format!("state={}", login.state),
    ] {
        assert!(login.url.contains(wanted), "missing {wanted} in {}", login.url);
    }
    assert!(login.url.contains(&urlencode("http://127.0.0.1:38700/callback")), "{}", login.url);
    assert!(!login.url.contains(&login.verifier));
    assert!(login.verifier.len() >= 43, "at least 43 characters are asked for");
    assert_eq!(login.state.len(), 22);
    assert_eq!(login.redirect_uri, "http://127.0.0.1:38700/callback");
}

#[test]
fn the_whole_authorize_url() {
    let url = authorize_url(&test_config(), "http://127.0.0.1:1/callback", "CHALLENGE", "STATE");
    assert_eq!(
        url,
        "https://seera-networks.jp.auth0.com/authorize?response_type=code&client_id=test-client\
         &redirect_uri=http%3A%2F%2F127.0.0.1%3A1%2Fcallback&scope=openid%20profile%20email%20offline_access\
         &audience=https%3A%2F%2Fmasque.seera-networks.com%2F&code_challenge=CHALLENGE\
         &code_challenge_method=S256&state=STATE"
    );
}

#[test]
fn no_organization_names_none() {
    let login = start_browser_login(&test_config(), 1);
    assert!(!login.url.contains("organization="), "{}", login.url);
}

#[test]
fn two_sign_ins_have_secrets_of_their_own() {
    let one = start_browser_login(&test_config(), 1);
    let other = start_browser_login(&test_config(), 1);
    assert_ne!(one.verifier, other.verifier);
    assert_ne!(one.state, other.state);
    assert!(one.verifier.chars().any(|c| c != 'A'), "the bytes were filled in");
}

#[test]
fn the_challenge_is_the_digest_of_the_verifier() {
    // The pair that the standard for these challenges gives as its example.
    assert_eq!(
        challenge_for("dBjftJeZ4CVP-mB92K27uhbUJU1p1r_wW1gFWFOEjXk"),
        "E9Melhoa2OwvFrEMTJguCHaoeK1t8URWbuGJSstw-cM"
    );
}

#[test]
fn the_code_comes_back_off_the_redirect() {
    let login = start_browser_login(&test_config(), 1);
    let (reply, outcome) = get(&login, &format!("/callback?code=THE_CODE&state={}", login.state));
    assert_eq!(outcome, RedirectOutcome::Code("THE_CODE".to_owned()));
    assert!(reply.starts_with("HTTP/1.1 200 OK\r\n"), "{reply}");
}

#[test]
fn a_code_of_any_characters_comes_back() {
    let login = start_browser_login(&test_config(), 1);
    let code = "a b&c=d?e%f+g/\u{3042}";
    let (_, outcome) = get(&login, &format!("/callback?code={}&state={}", urlencode(code), login.state));
    assert_eq!(outcome, RedirectOutcome::Code(code.to_owned()));
}

#[test]
fn a_code_with_the_wrong_state_is_ignored() {
    let login = start_browser_login(&test_config(), 1);
    let (reply, outcome) = get(&login, "/callback?code=NOT_OURS&state=somebody_else");
    assert_eq!(outcome, RedirectOutcome::Waiting);
    assert!(reply.starts_with("HTTP/1.1 400 Bad Request\r\n"), "{reply}");
    assert!(reply.contains("That sign-in did not start here."), "{reply}");
    let (_, outcome) = get(&login, &format!("/callback?code=OURS&state={}", login.state));
    assert_eq!(outcome, RedirectOutcome::Code("OURS".to_owned()));
}

#[test]
fn an_unrelated_request_does_not_end_the_wait() {
    let login = start_browser_login(&test_config(), 1);
    for target in ["/favicon.ico", "/callback", "/callback?", "/callback?state=x"] {
        let (reply, outcome) = get(&login, target);
        assert_eq!(outcome, RedirectOutcome::Waiting, "{target}");
        assert!(reply.starts_with("HTTP/1.1 404 Not Found\r\n"), "{reply}");
    }
    let (_, outcome) = wait_for_the_redirect(&login, "");
    assert_eq!(outcome, RedirectOutcome::Waiting);
    let (_, outcome) = get(&login, &format!("/callback?code=AFTER_THE_NOISE&state={}", login.state));
    assert_eq!(outcome, RedirectOutcome::Code("AFTER_THE_NOISE".to_owned()));
}

#[test]
fn a_refusal_on_the_redirect_is_reported() {
    let login = start_browser_login(&test_config(), 1);
    let (reply, outcome) = get(
        &login,
        &format!("/callback?error=access_denied&error_description=No%20thanks&state={}", login.state),
    );
    assert_eq!(outcome, RedirectOutcome::Refused("access_denied: No thanks".to_owned()));
    assert!(reply.contains("Sign-in failed."), "{reply}");
    assert_eq!(
        LoginError::SignInRefused("access_denied: No thanks".to_owned()).message(),
        "Auth0 refused the sign-in: access_denied: No thanks"
    );
    // A description without a refusal before it says nothing.
    let (_, outcome) = get(&login, &format!("/callback?error_description=x&code=C&state={}", login.state));
    assert_eq!(outcome, RedirectOutcome::Code("C".to_owned()));
}

#[test]
fn an_error_from_another_sign_in_is_ignored() {
    let login = start_browser_login(&test_config(), 1);
    let (_, outcome) = get(&login, "/callback?error=access_denied&state=somebody_else");
    assert_eq!(outcome, RedirectOutcome::Waiting);
    let (_, outcome) = get(&login, &format!("/callback?code=THE_REAL_ONE&state={}", login.state));
    assert_eq!(outcome, RedirectOutcome::Code("THE_REAL_ONE".to_owned()));
}

#[test]
fn the_reply_asks_the_browser_for_nothing() {
    let reply = String::from_utf8_lossy(&page("200 OK", "Signed in.")).into_owned();
    assert!(reply.contains("rel=icon"), "{reply}");
    assert!(reply.contains("Connection: close"));
    for asks_for_more in ["<script", "<img", "<link rel=stylesheet"] {
        assert!(!reply.contains(asks_for_more), "{asks_for_more} in {reply}");
    }
    let (head, body) = reply.split_once("\r\n\r\n").expect("a complete reply");
    let declared: usize = head
        .lines()
        .find_map(|l| l.strip_prefix("Content-Length: "))
        .expect("a length")
        .trim()
        .parse()
        .expect("a number");
    assert_eq!(declared, body.len());
}

#[test]
fn the_length_counts_bytes() {
    let reply = String::from_utf8(page("200 OK", "\u{3042}")).unwrap();
    let (head, body) = reply.split_once("\r\n\r\n").unwrap();
    assert!(head.contains(&format!("Content-Length: {}", body.len())), "{head}");
    assert_eq!(
        reply,
        format!(
            "HTTP/1.1 200 OK\r\nContent-Type: text/html; charset=utf-8\r\nContent-Length: {}\r\nConnection: close\r\n\r\n{body}",
            body.len()
        )
    );
    assert_eq!(
        body,
        "<!doctype html><meta charset=utf-8><title>ISEKAI</title><link rel=icon href=\"data:,\">\
         <body style=\"font:16px system-ui;margin:3rem\">\u{3042}</body>"
    );
}

#[test]
fn a_request_is_read_up_to_its_first_line() {
    assert_eq!(
        request_line(&b"GET /x HTTP/1.1\r\nHost: y\r\n".to_vec()),
        RequestLine::Line("GET /x HTTP/1.1".to_owned())
    );
    assert_eq!(request_line(&b"GET /x HTTP/1.1\r".to_vec()), RequestLine::More);
    assert_eq!(request_line(&Vec::new()), RequestLine::More);
    assert_eq!(request_line(&vec![b'a'; 8192]), RequestLine::TooLong);
    assert_eq!(request_line(&b"\xff\r\n".to_vec()), RequestLine::Line("\u{fffd}".to_owned()));
}

fn jwt(claims: &str) -> String {
    let payload = URL_SAFE_NO_PAD.encode(claims);
    format!("header.{payload}.signature")
}

fn id_token(claims: &str) -> String {
    jwt(claims)
}

fn signed_in_to(org_id: Option<&str>, recorded: Option<Organization>) -> Auth0Tokens {
    Auth0Tokens {
        access_token: jwt(&match org_id {
            Some(id) => format!(r#"{{"sub":"auth0|u","org_id":"{id}"}}"#),
            None => r#"{"sub":"auth0|u"}"#.to_owned(),
        }),
        refresh_token: Some("RT".to_owned()),
        expires_at_unix: unix_now() + 900,
        recorded_organization: recorded,
    }
}

#[test]
fn the_organization_is_read_from_the_access_token() {
    let tokens = signed_in_to(Some("org_tAUNRLW8USki2Big"), None);
    let org = tokens.organization().expect("an organization");
    assert_eq!(org.id, "org_tAUNRLW8USki2Big");
    assert_eq!(org.to_text(), "org_tAUNRLW8USki2Big");
}

#[test]
fn a_namespaced_name_on_the_access_token_is_used() {
    let tokens = Auth0Tokens {
        access_token: jwt(&format!(
            r#"{{"org_id":"org_tAUNRLW8USki2Big","{ORG_NAME_CLAIM}":"seera-networks"}}"#
        )),
        refresh_token: None,
        expires_at_unix: unix_now() + 900,
        recorded_organization: None,
    };
    assert_eq!(
        tokens.organization().expect("an organization").to_text(),
        "seera-networks (org_tAUNRLW8USki2Big)",
    );
}

#[test]
fn a_refresh_without_a_name_keeps_the_one_already_known() {
    let known = Organization { id: "org_a1b2c3".to_owned(), name: Some("seera-networks".to_owned()) };
    let nameless = Organization { id: "org_a1b2c3".to_owned(), name: None };
    let mut renewed = signed_in_to(Some("org_a1b2c3"), Some(nameless));
    carry_name(&signed_in_to(Some("org_a1b2c3"), Some(known.clone())), &mut renewed);
    assert_eq!(
        renewed.organization().expect("an organization").to_text(),
        "seera-networks (org_a1b2c3)",
    );

    let mut silent = signed_in_to(Some("org_a1b2c3"), None);
    carry_name(&signed_in_to(Some("org_a1b2c3"), Some(known.clone())), &mut silent);
    assert_eq!(
        silent.recorded_organization.as_ref().and_then(|o| o.name.clone()),
        Some("seera-networks".to_owned())
    );

    let mut elsewhere = signed_in_to(Some("org_new"), None);
    carry_name(&signed_in_to(Some("org_a1b2c3"), Some(known)), &mut elsewhere);
    assert_eq!(
        elsewhere.organization().expect("an organization").to_text(),
        "org_new",
        "the record belongs to the organization that was left",
    );
}

#[test]
fn a_token_that_cannot_be_read_says_so() {
    assert_eq!(organization_in("not-a-jwt"), TokenOrganization::Unreadable);
    assert_eq!(organization_in("h..s"), TokenOrganization::Unreadable);
    assert_eq!(organization_in(&jwt(r#"{"sub":"auth0|u"}"#)), TokenOrganization::Personal);
    assert!(matches!(organization_in(&jwt(r#"{"org_id":"org_x"}"#)), TokenOrganization::In(_)));
    // A claim that is not a string is no claim, and what is not an object has none.
    assert_eq!(organization_in(&jwt(r#"{"org_id":7}"#)), TokenOrganization::Personal);
    assert_eq!(organization_in(&jwt("[]")), TokenOrganization::Personal);
}

#[test]
fn claims_say_what_they_say() {
    assert_eq!(organization_from(None), TokenOrganization::Unreadable);
    let claims = |org_id: Option<&str>, org_name: Option<&str>, namespaced: Option<&str>| {
        Some(OrganizationClaims {
            org_id: org_id.map(str::to_owned),
            org_name: org_name.map(str::to_owned),
            namespaced_name: namespaced.map(str::to_owned),
        })
    };
    assert_eq!(organization_from(claims(None, Some("n"), None)), TokenOrganization::Personal);
    assert_eq!(
        organization_from(claims(Some("i"), Some("n"), Some("m"))),
        TokenOrganization::In(Organization { id: "i".to_owned(), name: Some("n".to_owned()) })
    );
    assert_eq!(
        organization_from(claims(Some("i"), None, Some("m"))),
        TokenOrganization::In(Organization { id: "i".to_owned(), name: Some("m".to_owned()) })
    );
}

#[test]
fn a_recorded_name_is_used_for_the_same_organization() {
    let tokens = signed_in_to(
        Some("org_a1b2c3"),
        Some(Organization { id: "org_a1b2c3".to_owned(), name: Some("seera-networks".to_owned()) }),
    );
    assert_eq!(
        tokens.organization().expect("an organization").to_text(),
        "seera-networks (org_a1b2c3)",
    );
}

#[test]
fn a_name_from_another_organization_is_not_borrowed() {
    let tokens = signed_in_to(
        Some("org_new"),
        Some(Organization { id: "org_old".to_owned(), name: Some("the-other-one".to_owned()) }),
    );
    assert_eq!(tokens.organization().expect("an organization").to_text(), "org_new");
}

#[test]
fn no_org_id_in_the_access_token_is_no_organization() {
    assert!(signed_in_to(None, None).organization().is_none());
}

#[test]
fn the_organization_is_read_for_saying_out_loud() {
    let org = organization_of(&id_token(r#"{"org_id":"org_a1b2c3","org_name":"seera-networks"}"#))
        .expect("an organization");
    assert_eq!(org.id, "org_a1b2c3");
    assert_eq!(org.to_text(), "seera-networks (org_a1b2c3)");
}

#[test]
fn an_organization_without_a_name_is_still_the_id() {
    let org = organization_of(&id_token(r#"{"org_id":"org_x"}"#)).expect("an organization");
    assert_eq!(org.to_text(), "org_x");
}

#[test]
fn no_organization_reads_as_none() {
    assert!(organization_of(&id_token(r#"{"sub":"auth0|u"}"#)).is_none());
    assert!(organization_of("not-a-jwt").is_none());
    assert!(organization_of("header..signature").is_none());
    assert!(organization_of("header.!!!.signature").is_none());
}

#[test]
fn a_percent_before_a_multibyte_character_is_not_a_panic() {
    assert_eq!(urldecode("%a€"), "%a€");
    assert_eq!(urldecode("%"), "%");
    assert_eq!(urldecode("%zz"), "%zz");
    assert_eq!(urldecode("%e3%81%82"), "あ");
}

#[test]
fn bytes_that_are_no_text_are_replaced() {
    assert_eq!(urldecode("a%ffb"), "a\u{fffd}b");
}

#[test]
fn a_pinned_port_that_is_not_a_port_is_refused() {
    let e = parse_pinned_port(Some("thirty-eight-seven-hundred")).expect_err("refused");
    assert!(e.message().contains(CALLBACK_PORT_VAR), "{}", e.message());
    assert!(parse_pinned_port(Some("0")).is_err(), "0 is not a pinned port");
    assert_eq!(parse_pinned_port(Some(" 38700 ")).unwrap(), Some(38700));
    assert_eq!(parse_pinned_port(None).unwrap(), None);
    assert_eq!(parse_pinned_port(Some("")).unwrap(), None);
}

#[test]
fn the_pinned_port_errors_in_words() {
    assert_eq!(
        parse_pinned_port(Some(" 65536 ")).unwrap_err().message(),
        "ISEKAI_AUTH0_CALLBACK_PORT is `65536`, which is not a port"
    );
    assert_eq!(
        parse_pinned_port(Some("+0")).unwrap_err().message(),
        "ISEKAI_AUTH0_CALLBACK_PORT is 0, which asks for any port"
    );
    assert_eq!(parse_pinned_port(Some("+7")).unwrap(), Some(7));
    assert!(parse_pinned_port(Some("-7")).is_err());
    assert!(parse_pinned_port(Some("+")).is_err());
    assert_eq!(parse_pinned_port(Some("\u{3000}7\u{a0}")).unwrap(), Some(7));
}

#[test]
fn a_configured_port_wins_over_the_variable() {
    let pinned = Auth0Config { callback_port: Some(9), ..test_config() };
    assert_eq!(pinned_port(&pinned, Some("nonsense")).unwrap(), Some(9));
    assert_eq!(pinned_port(&test_config(), Some("7")).unwrap(), Some(7));
    assert!(pinned_port(&test_config(), Some("nonsense")).is_err());
    assert_eq!(
        listening_context(Some(9)),
        "open 127.0.0.1:9 for the sign-in to come back to (ISEKAI_AUTH0_CALLBACK_PORT pins it; something else holds it)"
    );
    assert_eq!(listening_context(None), "open a loopback port for the sign-in to come back to");
}

#[test]
fn a_query_value_survives_the_browser_encoding_it() {
    assert_eq!(urldecode("a%2Fb+c"), "a/b c");
    assert_eq!(urldecode("plain"), "plain");
    assert_eq!(urldecode("100%"), "100%");
    assert_eq!(urlencode("https://a/b c"), "https%3A%2F%2Fa%2Fb%20c");
}

#[test]
fn decoding_undoes_encoding() {
    for value in ["", "a+b", "100%", "%41", "あ€", "~-._", "\u{0}\u{7f}"] {
        assert_eq!(urldecode(&urlencode(value)), value);
    }
    assert_eq!(urlencode("あ"), "%E3%81%82");
}

fn tokens(expires_in_secs: i64, refresh: Option<&str>) -> Auth0Tokens {
    Auth0Tokens {
        access_token: "access".to_owned(),
        refresh_token: refresh.map(str::to_owned),
        expires_at_unix: (unix_now() as i64 + expires_in_secs).max(0) as u64,
        recorded_organization: None,
    }
}

#[test]
fn a_token_with_time_left_is_not_stale() {
    assert!(!tokens(3600, None).is_stale());
}

#[test]
fn a_token_inside_the_margin_is_already_stale() {
    assert!(tokens(-1, None).is_stale());
    assert!(tokens(0, None).is_stale());
    assert!(tokens(REFRESH_MARGIN as i64 / 2, None).is_stale());
}

#[test]
fn the_margin_is_a_minute() {
    let held = Auth0Tokens { expires_at_unix: 1000, ..tokens(0, None) };
    assert!(!held.is_stale_at(939));
    assert!(held.is_stale_at(940));
    assert!(held.is_stale_at(u64::MAX));
    assert!(Auth0Tokens { expires_at_unix: 0, ..tokens(0, None) }.is_stale_at(0));
}

#[test]
fn the_defaults_match_the_ios_app() {
    let cfg = Auth0Config::default();
    assert_eq!(cfg.domain, "seera-networks.jp.auth0.com");
    assert_eq!(cfg.client_id, "FeDSXYhJsfV1d9v6JyBte874R6En4tok");
    assert_eq!(cfg.audience, "https://masque.seera-networks.com/");
    assert!(
        cfg.scope.contains("offline_access"),
        "without it there is no refresh token and the session ends with the access token",
    );
}

#[test]
fn an_empty_organization_is_none() {
    assert_eq!(Auth0Config::with_organization(Some(String::new())).organization, None);
    assert_eq!(
        Auth0Config::with_organization(Some("org_x".to_owned())).organization,
        Some("org_x".to_owned())
    );
    assert_eq!(Auth0Config::with_organization(None).organization, None);
}

#[test]
fn urls_are_built_off_the_domain_without_doubling_the_slash() {
    let cfg = Auth0Config { domain: "example.auth0.com/".to_owned(), ..Auth0Config::default() };
    assert_eq!(cfg.url("/oauth/token"), "https://example.auth0.com/oauth/token");
}

fn response(expires_in: u64) -> TokenResponse {
    TokenResponse {
        access_token: "AT".to_owned(),
        refresh_token: None,
        expires_in,
        id_token: Some(id_token(r#"{"org_id":"org_x","org_name":"X"}"#)),
    }
}

fn refused(error: &str, description: Option<&str>) -> Option<ErrorResponse> {
    Some(ErrorResponse { error: error.to_owned(), error_description: description.map(str::to_owned) })
}

fn exchange(status: u16, error: Option<ErrorResponse>) -> Exchange<TokenResponse> {
    Exchange { status, reply: Err("not JSON".to_owned()), error }
}

#[test]
fn an_answer_becomes_tokens() {
    let got = tokens_from(response(900), 1000);
    assert_eq!(got.access_token, "AT");
    assert_eq!(got.refresh_token, None);
    assert_eq!(got.expires_at_unix, 1900);
    assert_eq!(got.recorded_organization.unwrap().to_text(), "X (org_x)");
}

#[test]
fn a_refusal_is_told_by_its_description() {
    assert_eq!(describe(&refused("e", Some("d")), 400), "d");
    assert_eq!(describe(&refused("e", None), 400), "e");
    assert_eq!(describe(&None, 404), "HTTP 404 Not Found");
    assert_eq!(describe(&None, 599), "HTTP 599 <unknown status code>");
}

#[test]
fn only_a_terminal_refusal_ends_the_session() {
    for error in ["invalid_grant", "unauthorized_client", "access_denied", "invalid_client"] {
        match refresh_with(exchange(403, refused(error, Some("why"))), None, 0) {
            Err(RefreshError::SignInRequired(text)) => assert_eq!(text, "why"),
            other => panic!("{error}: {other:?}"),
        }
    }
    match refresh_with(exchange(429, refused("too_many_requests", None)), None, 0) {
        Err(e @ RefreshError::Transient(_)) => {
            assert_eq!(e.message(), "Auth0 could not refresh the access token: too_many_requests")
        }
        other => panic!("{other:?}"),
    }
    match refresh_with(exchange(503, None), None, 0) {
        Err(RefreshError::Transient(text)) => {
            assert_eq!(text, "Auth0 could not refresh the access token: HTTP 503 Service Unavailable")
        }
        other => panic!("{other:?}"),
    }
    match refresh_with(exchange(200, None), None, 0) {
        Err(RefreshError::Transient(text)) => assert_eq!(text, "could not read the refresh response: not JSON"),
        other => panic!("{other:?}"),
    }
    assert_eq!(
        RefreshError::SignInRequired("why".to_owned()).message(),
        "the Auth0 session has ended, sign in again: why"
    );
}

#[test]
fn a_refresh_carries_the_name() {
    let held = signed_in_to(
        Some("org_x"),
        Some(Organization { id: "org_x".to_owned(), name: Some("Known".to_owned()) }),
    );
    let reply = TokenResponse { id_token: None, ..response(60) };
    let renewed = refresh_with(Exchange { status: 200, reply: Ok(reply), error: None }, Some(&held), 40).unwrap();
    assert_eq!(renewed.expires_at_unix, 100);
    assert_eq!(renewed.recorded_organization.unwrap().to_text(), "Known (org_x)");
}

#[test]
fn a_code_is_exchanged() {
    let login = BrowserLogin {
        url: String::new(),
        verifier: "V".to_owned(),
        state: "S".to_owned(),
        redirect_uri: "R".to_owned(),
    };
    let form = code_form(&test_config(), &login, "C");
    let shown: Vec<(&str, &str)> = form.iter().map(|(n, v)| (n.as_str(), v.as_str())).collect();
    assert_eq!(
        shown,
        vec![
            ("grant_type", "authorization_code"),
            ("client_id", "test-client"),
            ("code", "C"),
            ("redirect_uri", "R"),
            ("code_verifier", "V"),
        ]
    );
    let form = refresh_form(&test_config(), "RT");
    assert_eq!(form[0], ("grant_type".to_owned(), "refresh_token".to_owned()));
    assert_eq!(form[2], ("refresh_token".to_owned(), "RT".to_owned()));

    let tokens = finish_browser_login(Exchange { status: 200, reply: Ok(response(1)), error: None }, 1).unwrap();
    assert_eq!(tokens.expires_at_unix, 2);
    assert_eq!(
        finish_browser_login(exchange(400, refused("invalid_grant", None)), 1).unwrap_err().message(),
        "Auth0 refused the authorization code: invalid_grant"
    );
    assert_eq!(
        finish_browser_login(exchange(201, None), 1).unwrap_err().message(),
        "Auth0 token response was not the expected shape: not JSON"
    );
}

#[test]
fn a_sign_in_is_made_of_its_two_draws() {
    let login = browser_login_from(&test_config(), 38700, &[0u8; 32], &[255u8; 16]);
    assert_eq!(login.verifier, "A".repeat(43));
    assert_eq!(login.state, "_____________________w");
    assert_eq!(login.redirect_uri, "http://127.0.0.1:38700/callback");
    let challenge = challenge_for(&login.verifier);
    assert_eq!(login.url, authorize_url(&test_config(), &login.redirect_uri, &challenge, &login.state));
    assert!(login.url.contains("&state=_____________________w"), "{}", login.url);
}

#[test]
fn encoding_goes_piece_by_piece_and_spares_the_unreserved() {
    assert_eq!(urlencode("a/\u{e9}"), format!("{}{}", urlencode("a/"), urlencode("\u{e9}")));
    assert_eq!(urlencode("Az09-._~"), "Az09-._~");
    assert_ne!(urlencode("100%"), "100%");
    assert_eq!(urldecode("https://a/\u{3042} b"), "https://a/\u{3042} b", "nothing to decode");
}

#[test]
fn a_refusal_may_state_any_lifetime() {
    let body = TokenResponse {
        access_token: String::new(),
        refresh_token: None,
        expires_in: u64::MAX,
        id_token: None,
    };
    let exchange = Exchange { status: 503, reply: Ok(body), error: None };
    assert!(matches!(refresh_with(exchange, None, u64::MAX), Err(RefreshError::Transient(_))));
}
