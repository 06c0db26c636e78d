use isekai_p2p::enrollment::{Identity, Listing};
use isekai_p2p::membership::{describe, Membership};
use isekai_p2p::oidc::{minted, token_in, GithubActionsOidc, OidcError, TokenFiles};
use isekai_p2p::secret::temp_beside;

fn membership(role: &str) -> Membership {
    Membership { role: role.to_owned(), not_after: None, membership_ended: None, demoted_to_guest: false }
}

#[test]
fn a_guest_is_told_when_it_ends() {
    let mut me = membership("guest");
    me.not_after = Some("2027-01-31T23:59:59Z".into());
    assert_eq!(describe(&me), "guest (until 2027-01-31T23:59:59Z)");
}

#[test]
fn an_ended_membership_is_not_reported_as_the_role_it_left_behind() {
    let mut me = membership("member");
    me.not_after = Some("2026-09-01T00:00:00Z".into());
    me.membership_ended = Some("expired".into());
    let text = describe(&me);
    assert!(text.contains("expired"), "{text}");
    assert!(text.contains("2026-09-01T00:00:00Z"), "{text}");
    assert!(!text.starts_with("member"), "{text}");

    me.membership_ended = Some("revoked".into());
    let text = describe(&me);
    assert!(text.contains("revoked"), "{text}");
    assert!(!text.contains("2026-09-01"), "{text}");
}

#[test]
fn promotion_is_not_reported_as_being_stopped() {
    let mut me = membership("member");
    me.membership_ended = Some("promoted".into());
    let text = describe(&me);
    assert!(text.starts_with("member"), "{text}");
    assert!(!text.contains("expired") && !text.contains("revoked"), "{text}");
}

#[test]
fn an_ended_membership_does_not_still_outrank_an_administrator() {
    let mut me = membership("tenant_admin");
    me.not_after = Some("2026-09-01T00:00:00Z".into());
    me.membership_ended = Some("expired".into());
    me.demoted_to_guest = true;
    let text = describe(&me);
    assert!(!text.contains("wins"), "{text}");
}

#[test]
fn a_demoted_administrator_is_told_why() {
    let mut me = membership("guest");
    me.not_after = Some("2027-01-31T23:59:59Z".into());
    me.demoted_to_guest = true;
    let text = describe(&me);
    assert!(text.contains("administrator"), "{text}");
    assert!(text.contains("2027-01-31T23:59:59Z"), "{text}");
}

#[test]
fn the_other_memberships_in_words() {
    assert_eq!(describe(&membership("member")), "member");
    assert_eq!(describe(&membership("guest")), "guest (the server did not say until when)");
    let mut me = membership("member");
    me.membership_ended = Some("expired".into());
    assert_eq!(describe(&me), "guest -- membership expired");
    me.membership_ended = Some("merged".into());
    assert_eq!(describe(&me), "member (membership ended: merged)");
}

#[test]
fn a_pair_is_split_on_the_first_equals() {
    let (audience, path) = TokenFiles::parse_pair("isekai-identity=/var/run/id").unwrap();
    assert_eq!(audience, "isekai-identity");
    assert_eq!(path, "/var/run/id");
}

#[test]
fn a_path_may_contain_an_equals() {
    let (audience, path) = TokenFiles::parse_pair("aud=/var/run/a=b").unwrap();
    assert_eq!(audience, "aud");
    assert_eq!(path, "/var/run/a=b");
}

#[test]
fn a_pair_without_both_halves_is_refused() {
    assert!(TokenFiles::parse_pair("/var/run/id").is_err());
    assert!(TokenFiles::parse_pair("=/var/run/id").is_err());
    assert!(TokenFiles::parse_pair("aud=").is_err());
}

#[test]
fn the_pair_errors_in_words() {
    assert_eq!(
        TokenFiles::parse_pair("x").unwrap_err().message(),
        "expected `audience=path`, got `x` \u{2014} one file per audience"
    );
    assert_eq!(TokenFiles::parse_pair("x=").unwrap_err().message(), "expected `audience=path`, got `x=`");
}

#[test]
fn an_unknown_audience_names_the_ones_there_are() {
    let files = TokenFiles::new(vec![("isekai-identity".to_owned(), "/nonexistent".to_owned())]);
    let message = files.path_for("isekai-proxy").unwrap_err().message();
    assert!(message.contains("isekai-proxy"), "{message}");
    assert!(message.contains("isekai-identity"), "{message}");
    assert_eq!(message, "no token file for audience `isekai-proxy` (have: isekai-identity)");
    assert_eq!(
        TokenFiles::new(Vec::new()).path_for("a").unwrap_err().message(),
        "no token file for audience `a` (have: none)"
    );
}

#[test]
fn a_mounted_token_is_read_and_trimmed() {
    let pair = |audience: &str, path: &str| (audience.to_owned(), path.to_owned());
    let files = TokenFiles::new(vec![pair("a", "/1"), pair("b", "/2"), pair("a", "/3")]);
    assert_eq!(files.path_for("a").unwrap(), "/3", "the last one counts");
    assert_eq!(files.path_for("b").unwrap(), "/2");
    assert_eq!(
        files.path_for("c").unwrap_err().message(),
        "no token file for audience `c` (have: a, b)",
        "each audience is named once",
    );
    assert_eq!(token_in("header.payload.signature\n"), "header.payload.signature");
    assert_eq!(token_in(" \t\n"), "");
}

#[test]
fn a_missing_runner_environment_names_the_permission() {
    let Err(err) = GithubActionsOidc::from_env(None, None) else {
        panic!("no runner environment, so this cannot succeed");
    };
    let message = err.message();
    assert!(message.contains("id-token: write"), "{message}");
    let set = |text: &str| Some(text.to_owned());
    assert!(GithubActionsOidc::from_env(set("u"), set("")).is_err());
    assert!(GithubActionsOidc::from_env(set(""), set("t")).is_err());
    assert_eq!(GithubActionsOidc::from_env(set("u"), set("t")).unwrap().request_token, "t");
}

#[test]
fn the_audience_goes_into_the_query() {
    let source = |url: &str| GithubActionsOidc { url: url.to_owned(), request_token: "t".to_owned() };
    assert_eq!(
        source("https://runner.test/token?api-version=2.0").request_url("isekai identity&x").unwrap(),
        "https://runner.test/token?api-version=2.0&audience=isekai+identity%26x"
    );
    assert!(source("https://runner.test/token").fits("isekai-identity"));
    assert!(!source(&"x".repeat(1 << 24)).fits("isekai-identity"), "its length might not be countable");
    let err = source("not a url").request_url("a").unwrap_err();
    assert_eq!(err.message(), "ACTIONS_ID_TOKEN_REQUEST_URL is not a URL");
}

#[test]
fn a_minted_token_is_read_from_the_answer() {
    assert_eq!(minted("a", 200, String::new(), Ok("T".to_owned())).unwrap(), "T");
    let err = minted("a", 200, String::new(), Err("eof".to_owned())).unwrap_err();
    assert_eq!(err.message(), "the GitHub Actions token endpoint answered something unexpected: eof");
    let err = minted("a", 403, "no".to_owned(), Ok("T".to_owned())).unwrap_err();
    assert!(matches!(err, OidcError::Refused { .. }));
    assert_eq!(err.message(), "GitHub Actions refused an id token for `a`: 403 Forbidden no");
}

#[test]
fn a_listing_is_read_to_its_end() {
    let identity = Identity::new("https://identity", true);
    assert_eq!((identity.url.as_str(), identity.http3), ("https://identity", true));
    let mut listing = Listing::new();
    assert!(listing.page(vec![1, 2], Some("next".to_owned())));
    assert_eq!(listing.cursor.as_deref(), Some("next"));
    assert!(!listing.page(vec![3], None));
    assert_eq!(listing.all, vec![1, 2, 3]);
    let mut endless = Listing::new();
    let mut pages = 1;
    while endless.page(vec![0], Some("again".to_owned())) {
        pages += 1;
    }
    assert_eq!(pages, 100);
}

#[test]
fn a_secret_is_written_beside_its_place_first() {
    assert_eq!(temp_beside("key.pem", 4821), "key.pem.4821.tmp");
}
