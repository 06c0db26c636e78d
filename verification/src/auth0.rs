//! Signing in with Auth0: the tenant, the tokens, and the organization they
//! name.

use crate::codec::{
    base64url_decode, base64url_reading, json_reading, json_string, json_value, status_text, status_text_spec,
};
pub use crate::browser_login::{
    finish_browser_login, page, parse_pinned_port, request_line, start_browser_login, wait_for_the_redirect, BrowserLogin,
};
pub use crate::device_login::{default_interval, start_device_login, DeviceLogin};
pub use crate::sign_in::{BrowserSignIn, RefreshingAuth0Token, SignInState};
use crate::text::{
    chars_of, free_of, law_cut_at_the_first, law_pieces_make_the_whole, same, split, split_spec, string_between, views,
};
pub use crate::urlcode::{hex_pair, urldecode, urlencode};
use vstd::prelude::*;

verus! {

/// How long before its expiry a token is replaced, in seconds.
pub const REFRESH_MARGIN: u64 = 60;

/// Names the variable that holds an organization to sign in to.
pub const ORGANIZATION_VAR: &'static str = "ISEKAI_AUTH0_ORGANIZATION";

/// Names the variable that pins the port a sign-in comes back to.
pub const CALLBACK_PORT_VAR: &'static str = "ISEKAI_AUTH0_CALLBACK_PORT";

/// The grant of a device login.
pub const DEVICE_CODE_GRANT: &'static str = "urn:ietf:params:oauth:grant-type:device_code";

/// The claim that names an organization in an access token.
pub const ORG_NAME_CLAIM: &'static str = "https://identity.isekai.tools/org_name";

/// How long a request to Auth0 may take, in seconds.
pub const REQUEST_TIMEOUT: u64 = 15;

/// How long connecting to Auth0 may take, in seconds.
pub const CONNECT_TIMEOUT: u64 = 10;

/// The tenant to sign in to, and what to ask it for.
#[derive(Clone, Debug)]
pub struct Auth0Config {
    /// The tenant's domain.
    pub domain: String,
    /// This application.
    pub client_id: String,
    /// The service that the token is for.
    pub audience: String,
    /// What the token should allow.
    pub scope: String,
    /// The organization to sign in to.
    pub organization: Option<String>,
    /// The port that a sign-in comes back to; any where absent.
    pub callback_port: Option<u16>,
}

impl Default for Auth0Config {
    fn default() -> (cfg: Self)
        ensures
            cfg.domain@ == "seera-networks.jp.auth0.com"@,
            cfg.client_id@ == "FeDSXYhJsfV1d9v6JyBte874R6En4tok"@,
            cfg.audience@ == "https://masque.seera-networks.com/"@,
            cfg.scope@ == "openid profile email offline_access"@,
            cfg.organization is None,
            cfg.callback_port is None,
    {
        Auth0Config {
            domain: "seera-networks.jp.auth0.com".to_owned(),
            client_id: "FeDSXYhJsfV1d9v6JyBte874R6En4tok".to_owned(),
            audience: "https://masque.seera-networks.com/".to_owned(),
            scope: "openid profile email offline_access".to_owned(),
            organization: None,
            callback_port: None,
        }
    }
}

/// `s` without the slashes at its end.
pub open spec fn without_slashes(s: Seq<char>) -> Seq<char>
    decreases s.len(),
{
    if s.len() > 0 && s.last() == '/' {
        without_slashes(s.drop_last())
    } else {
        s
    }
}

impl Auth0Config {
    /// The defaults, with the organization that [`ORGANIZATION_VAR`] holds; an
    /// empty one is none.
    pub fn with_organization(organization: Option<String>) -> (cfg: Self)
        ensures
            cfg.domain@ == "seera-networks.jp.auth0.com"@,
            cfg.client_id@ == "FeDSXYhJsfV1d9v6JyBte874R6En4tok"@,
            cfg.audience@ == "https://masque.seera-networks.com/"@,
            cfg.scope@ == "openid profile email offline_access"@,
            cfg.organization == (match organization {
                Some(name) if name@.len() > 0 => Some(name),
                _ => None,
            }),
            cfg.callback_port is None,
    {
        let mut cfg = Auth0Config::default();
        if let Some(name) = organization {
            if !name.as_str().is_empty() {
                cfg.organization = Some(name);
            }
        }
        cfg
    }

    /// A URL of the tenant.
    pub open spec fn url_spec(self, path: Seq<char>) -> Seq<char> {
        "https://"@ + without_slashes(self.domain@) + path
    }

    /// A URL of the tenant, whether or not its domain ends in a slash.
    pub fn url(&self, path: &str) -> (url: String)
        ensures
            url@ == self.url_spec(path@),
    {
        let v = chars_of(self.domain.as_str());
        let mut end: usize = v.len();
        proof {
            assert(v@.take(end as int) =~= v@);
        }
        while end > 0 && v[end - 1] == '/'
            invariant
                end <= v@.len(),
                without_slashes(v@.take(end as int)) == without_slashes(v@),
            decreases end,
        {
            proof {
                assert(v@.take(end as int).drop_last() =~= v@.take(end - 1));
                assert(v@.take(end as int).last() == v@[end - 1]);
            }
            end = end - 1;
        }
        proof {
            if end > 0 {
                assert(v@.take(end as int).last() == v@[end - 1]);
            }
            assert(v@.subrange(0, end as int) =~= v@.take(end as int));
        }
        let mut url = "https://".to_owned();
        url.push_str(string_between(&v, 0, end).as_str());
        url.push_str(path);
        url
    }
}

/// An organization that a person belongs to.
#[derive(Clone, Debug, PartialEq, Eq)]
pub struct Organization {
    /// Its id.
    pub id: String,
    /// Its name, where it is known.
    pub name: Option<String>,
}

impl Organization {
    /// The organization as it is shown.
    pub open spec fn text_spec(self) -> Seq<char> {
        match self.name {
            Some(name) => name@ + " ("@ + self.id@ + ")"@,
            None => self.id@,
        }
    }

    /// The organization as it is shown: its name and id, or the id alone.
    pub fn to_text(&self) -> (text: String)
        ensures
            text@ == self.text_spec(),
    {
        match &self.name {
            Some(name) => {
                let mut text = name.clone();
                text.push_str(" (");
                text.push_str(self.id.as_str());
                text.push_str(")");
                text
            },
            None => self.id.clone(),
        }
    }

    fn copy(&self) -> (r: Organization)
        ensures
            r == *self,
    {
        Organization { id: self.id.clone(), name: self.name.clone() }
    }
}

/// What a token says about organizations.
#[derive(Clone, Debug, PartialEq, Eq)]
pub enum TokenOrganization {
    /// It was issued for this one.
    In(Organization),
    /// It was issued for none.
    Personal,
    /// It cannot be read.
    Unreadable,
}

/// The claims of a token that are about an organization.
#[derive(Debug)]
pub struct OrganizationClaims {
    /// The organization's id.
    pub org_id: Option<String>,
    /// Its name.
    pub org_name: Option<String>,
    /// Its name, under [`ORG_NAME_CLAIM`].
    pub namespaced_name: Option<String>,
}

/// What claims say about organizations; none were read where there are none.
pub open spec fn organization_from_spec(claims: Option<OrganizationClaims>) -> TokenOrganization {
    match claims {
        None => TokenOrganization::Unreadable,
        Some(claims) => match claims.org_id {
            None => TokenOrganization::Personal,
            Some(id) => TokenOrganization::In(
                Organization {
                    id,
                    name: match claims.org_name {
                        Some(name) => Some(name),
                        None => claims.namespaced_name,
                    },
                },
            ),
        },
    }
}

/// What claims say about organizations.
pub fn organization_from(claims: Option<OrganizationClaims>) -> (r: TokenOrganization)
    ensures
        r == organization_from_spec(claims),
{
    match claims {
        None => TokenOrganization::Unreadable,
        Some(claims) => match claims.org_id {
            None => TokenOrganization::Personal,
            Some(id) => {
                let name = match claims.org_name {
                    Some(name) => Some(name),
                    None => claims.namespaced_name,
                };
                TokenOrganization::In(Organization { id, name })
            },
        },
    }
}

/// The string claims of a token: its second part, which is base64, holds them
/// as JSON.
pub open spec fn claims_spec(token: Seq<char>) -> Option<Map<Seq<char>, Seq<char>>> {
    let parts = split_spec(token, '.');
    if parts.len() < 2 {
        None
    } else {
        match base64url_reading(parts[1]) {
            Some(payload) => json_reading(payload),
            None => None,
        }
    }
}

/// One claim.
pub open spec fn claim(claims: Map<Seq<char>, Seq<char>>, name: Seq<char>) -> Option<Seq<char>> {
    if claims.contains_key(name) {
        Some(claims[name])
    } else {
        None
    }
}

/// The characters of an optional string.
pub open spec fn text_of(s: Option<String>) -> Option<Seq<char>> {
    match s {
        Some(s) => Some(s@),
        None => None,
    }
}

/// What a token says about organizations.
pub open spec fn token_organization(token: Seq<char>, r: TokenOrganization) -> bool {
    match claims_spec(token) {
        None => r == TokenOrganization::Unreadable,
        Some(claims) => match claim(claims, "org_id"@) {
            None => r == TokenOrganization::Personal,
            Some(id) => r matches TokenOrganization::In(org) && org.id@ == id && text_of(org.name) == (match claim(
                claims,
                "org_name"@,
            ) {
                Some(name) => Some(name),
                None => claim(claims, ORG_NAME_CLAIM@),
            }),
        },
    }
}

fn claims_of(token: &str) -> (r: Option<OrganizationClaims>)
    ensures
        match (r, claims_spec(token@)) {
            (None, None) => true,
            (Some(got), Some(claims)) => text_of(got.org_id) == claim(claims, "org_id"@) && text_of(got.org_name)
                == claim(claims, "org_name"@) && text_of(got.namespaced_name) == claim(claims, ORG_NAME_CLAIM@),
            _ => false,
        },
{
    let parts = split(token, '.');
    if parts.len() < 2 {
        return None;
    }
    proof {
        assert(views(parts@)[1] == parts@[1]@);
    }
    let payload = match base64url_decode(parts[1].as_str()) {
        Some(payload) => payload,
        None => {
            return None;
        },
    };
    let value = match json_value(payload.as_slice()) {
        Some(value) => value,
        None => {
            return None;
        },
    };
    Some(
        OrganizationClaims {
            org_id: json_string(&value, "org_id"),
            org_name: json_string(&value, "org_name"),
            namespaced_name: json_string(&value, ORG_NAME_CLAIM),
        },
    )
}

/// Which organization a token was issued for. The token is read, not checked.
pub fn organization_in(access_token: &str) -> (r: TokenOrganization)
    ensures
        token_organization(access_token@, r),
{
    organization_from(claims_of(access_token))
}

/// The organization that an identity token names, where it names one.
pub fn organization_of(id_token: &str) -> (r: Option<Organization>)
    ensures
        match r {
            Some(org) => token_organization(id_token@, TokenOrganization::In(org)),
            None => token_organization(id_token@, TokenOrganization::Personal) || token_organization(
                id_token@,
                TokenOrganization::Unreadable,
            ),
        },
{
    match organization_in(id_token) {
        TokenOrganization::In(org) => Some(org),
        _ => None,
    }
}

/// The tokens of a sign-in.
#[derive(Clone, Debug)]
pub struct Auth0Tokens {
    /// The access token.
    pub access_token: String,
    /// The organization that was named when signing in.
    pub recorded_organization: Option<Organization>,
    /// The token that a new access token is obtained with.
    pub refresh_token: Option<String>,
    /// When the access token expires, in seconds since the Unix epoch.
    pub expires_at_unix: u64,
}

/// The organization of an access token, with the recorded name where the token
/// has none and the record is of the same organization.
pub open spec fn named_spec(org: Organization, recorded: Option<Organization>) -> Organization {
    match (org.name, recorded) {
        (None, Some(seen)) if seen.id@ == org.id@ => Organization { name: seen.name, ..org },
        _ => org,
    }
}

/// An organization with the name that was recorded for it, where it has none.
pub fn named(org: Organization, recorded: &Option<Organization>) -> (r: Organization)
    ensures
        r == named_spec(org, *recorded),
{
    if org.name.is_none() {
        if let Some(seen) = recorded {
            if seen.id == org.id {
                return Organization { id: org.id, name: seen.name.clone() };
            }
        }
    }
    org
}

/// The time since the Unix epoch, in whole seconds: `SystemTime::now`. Nothing
/// is promised of it.
#[verifier::external_body]
fn unix_now() -> u64 {
    std::time::SystemTime::now().duration_since(std::time::UNIX_EPOCH).unwrap_or_default().as_secs()
}

/// Whether a token that expires at `expires_at` is to be replaced at `now`.
pub open spec fn stale(expires_at: u64, now: u64) -> bool {
    now + REFRESH_MARGIN >= expires_at
}

impl Auth0Tokens {
    /// The organization that the access token was issued for.
    pub fn organization(&self) -> (r: Option<Organization>)
        ensures
            match r {
                Some(shown) => exists|org: Organization|
                    token_organization(self.access_token@, TokenOrganization::In(org)) && shown == #[trigger] named_spec(
                        org,
                        self.recorded_organization,
                    ),
                None => token_organization(self.access_token@, TokenOrganization::Personal) || token_organization(
                    self.access_token@,
                    TokenOrganization::Unreadable,
                ),
            },
    {
        match organization_in(self.access_token.as_str()) {
            TokenOrganization::In(org) => Some(named(org, &self.recorded_organization)),
            _ => None,
        }
    }

    /// Whether the access token is to be replaced at `now`.
    pub fn is_stale_at(&self, now: u64) -> (r: bool)
        ensures
            r == stale(self.expires_at_unix, now),
    {
        self.expires_at_unix <= REFRESH_MARGIN || now >= self.expires_at_unix - REFRESH_MARGIN
    }

    /// Whether the access token is to be replaced now.
    pub fn is_stale(&self) -> (r: bool)
        ensures
            exists|now: u64| r == #[trigger] stale(self.expires_at_unix, now),
            self.expires_at_unix <= REFRESH_MARGIN ==> r,
    {
        self.is_stale_at(unix_now())
    }
}

/// A name is shown only for the organization that it was recorded for.
pub proof fn law_name_is_not_borrowed(org: Organization, recorded: Option<Organization>)
    requires
        recorded matches Some(seen) ==> seen.id@ != org.id@,
    ensures
        named_spec(org, recorded) == org,
{
}

/// What is shown is always of the organization that the token names.
pub proof fn law_shown_organization_is_the_tokens_own(org: Organization, recorded: Option<Organization>)
    ensures
        named_spec(org, recorded).id == org.id,
        org.name is Some ==> named_spec(org, recorded) == org,
{
}

/// The record after a refresh, from the record before it and the fresh one.
pub open spec fn carried(held: Option<Organization>, fresh: Option<Organization>) -> Option<Organization> {
    match held {
        Some(known) if known.name is Some => match fresh {
            None => Some(known),
            Some(org) if org.id@ == known.id@ && org.name is None => Some(Organization { name: known.name, ..org }),
            _ => fresh,
        },
        _ => fresh,
    }
}

/// Keep a name that was known before a refresh, where the refresh brought none.
pub fn carry_name(held: &Auth0Tokens, renewed: &mut Auth0Tokens)
    ensures
        final(renewed).recorded_organization == carried(
            held.recorded_organization,
            old(renewed).recorded_organization,
        ),
        final(renewed).access_token == old(renewed).access_token,
        final(renewed).refresh_token == old(renewed).refresh_token,
        final(renewed).expires_at_unix == old(renewed).expires_at_unix,
{
    let known = match &held.recorded_organization {
        Some(known) => known,
        None => {
            return ;
        },
    };
    if known.name.is_none() {
        return ;
    }
    let next = match &renewed.recorded_organization {
        None => Some(known.copy()),
        Some(fresh) => {
            if fresh.id == known.id && fresh.name.is_none() {
                Some(Organization { id: fresh.id.clone(), name: known.name.clone() })
            } else {
                return ;
            }
        },
    };
    renewed.recorded_organization = next;
}

/// A refresh keeps the name that is shown for an organization: where the
/// access token names it without a name, the name that was known is shown,
/// whether the refresh recorded nothing or the organization without a name.
pub proof fn law_refresh_keeps_the_name(org: Organization, known: Organization, fresh: Option<Organization>)
    requires
        known.name is Some,
        org.name is None,
        org.id@ == known.id@,
        fresh matches Some(seen) ==> seen.id@ == known.id@ && seen.name is None,
    ensures
        named_spec(org, carried(Some(known), fresh)).name == known.name,
{
}

/// An answer with tokens.
pub struct TokenResponse {
    /// The access token.
    pub access_token: String,
    /// The refresh token, where one was granted.
    pub refresh_token: Option<String>,
    /// How long the access token lasts, in seconds.
    pub expires_in: u64,
    /// The identity token, where one was asked for.
    pub id_token: Option<String>,
}

/// An answer that refuses.
#[derive(Debug)]
pub struct ErrorResponse {
    /// The kind of refusal.
    pub error: String,
    /// The refusal in words.
    pub error_description: Option<String>,
}

/// An answer from Auth0, and what its body could be read as.
pub struct Exchange<T> {
    /// The HTTP status.
    pub status: u16,
    /// The body as what was asked for, or why it is not that.
    pub reply: Result<T, String>,
    /// The body as a refusal, where it is one.
    pub error: Option<ErrorResponse>,
}

impl<T> Exchange<T> {
    /// The status is one that HTTP knows.
    pub open spec fn wf(self) -> bool {
        100 <= self.status <= 999
    }

    /// The status says that it worked.
    pub open spec fn succeeded(self) -> bool {
        200 <= self.status <= 299
    }

    /// Whether the status says that it worked.
    pub fn is_success(&self) -> (r: bool)
        ensures
            r == self.succeeded(),
    {
        200 <= self.status && self.status <= 299
    }
}

/// The refusal in words: its description, else its kind, else the status.
pub open spec fn describe_spec(error: Option<ErrorResponse>, status: u16) -> Seq<char> {
    match error {
        Some(e) => refusal_text(e),
        None => "HTTP "@ + status_text_spec(status),
    }
}

/// A refusal in words.
pub open spec fn refusal_text(e: ErrorResponse) -> Seq<char> {
    match e.error_description {
        Some(text) => text@,
        None => e.error@,
    }
}

/// A refusal in words: its description, else its kind.
pub fn refusal(e: &ErrorResponse) -> (text: String)
    ensures
        text@ == refusal_text(*e),
{
    match &e.error_description {
        Some(text) => text.clone(),
        None => e.error.clone(),
    }
}

/// The refusal in words.
pub fn describe(error: &Option<ErrorResponse>, status: u16) -> (text: String)
    requires
        100 <= status <= 999,
    ensures
        text@ == describe_spec(*error, status),
{
    match error {
        Some(e) => refusal(e),
        None => {
            let mut text = "HTTP ".to_owned();
            text.push_str(status_text(status).as_str());
            proof {
                assert(text@ =~= "HTTP "@ + status_text_spec(status));
            }
            text
        },
    }
}

/// The tokens that an answer at `now` brought.
pub open spec fn tokens_spec(body: TokenResponse, now: u64, tokens: Auth0Tokens) -> bool {
    &&& tokens.access_token == body.access_token
    &&& tokens.refresh_token == body.refresh_token
    &&& tokens.expires_at_unix == now + body.expires_in
    &&& match body.id_token {
        None => tokens.recorded_organization is None,
        Some(id_token) => match tokens.recorded_organization {
            Some(org) => token_organization(id_token@, TokenOrganization::In(org)),
            None => token_organization(id_token@, TokenOrganization::Personal) || token_organization(
                id_token@,
                TokenOrganization::Unreadable,
            ),
        },
    }
}

/// The expiry of an answer at `now`, where it brought tokens, can be counted.
pub open spec fn countable(exchange: Exchange<TokenResponse>, now: u64) -> bool {
    exchange.succeeded() ==> (exchange.reply matches Ok(body) ==> now + body.expires_in <= u64::MAX)
}

/// The tokens that an answer at `now` brought.
pub fn tokens_from(body: TokenResponse, now: u64) -> (tokens: Auth0Tokens)
    requires
        now + body.expires_in <= u64::MAX,
    ensures
        tokens_spec(body, now, tokens),
{
    let recorded_organization = match &body.id_token {
        Some(id_token) => organization_of(id_token.as_str()),
        None => None,
    };
    Auth0Tokens {
        access_token: body.access_token,
        refresh_token: body.refresh_token,
        expires_at_unix: now + body.expires_in,
        recorded_organization,
    }
}

/// Why a refresh failed.
#[derive(Debug)]
pub enum RefreshError {
    /// The session has ended; only signing in again helps.
    SignInRequired(String),
    /// It may work later.
    Transient(String),
}

impl RefreshError {
    /// The error in words.
    pub open spec fn message_spec(self) -> Seq<char> {
        match self {
            RefreshError::SignInRequired(detail) => "the Auth0 session has ended, sign in again: "@ + detail@,
            RefreshError::Transient(text) => text@,
        }
    }

    /// The error in words.
    pub fn message(&self) -> (text: String)
        ensures
            text@ == self.message_spec(),
    {
        match self {
            RefreshError::SignInRequired(detail) => {
                let mut text = "the Auth0 session has ended, sign in again: ".to_owned();
                text.push_str(detail.as_str());
                text
            },
            RefreshError::Transient(text) => text.clone(),
        }
    }
}

/// A refusal that no retry can change.
pub open spec fn is_terminal_spec(error: Seq<char>) -> bool {
    error == "invalid_grant"@ || error == "unauthorized_client"@ || error == "access_denied"@ || error
        == "invalid_client"@
}

/// Whether no retry can change a refusal of this kind.
pub fn is_terminal(error: &str) -> (r: bool)
    ensures
        r == is_terminal_spec(error@),
{
    same(error, "invalid_grant") || same(error, "unauthorized_client") || same(error, "access_denied") || same(
        error,
        "invalid_client",
    )
}

/// A field of a form.
pub open spec fn field(pair: (String, String)) -> (Seq<char>, Seq<char>) {
    (pair.0@, pair.1@)
}

/// The fields of a form.
pub open spec fn fields(form: Seq<(String, String)>) -> Seq<(Seq<char>, Seq<char>)> {
    form.map_values(|pair: (String, String)| field(pair))
}

/// Add a field to a form.
pub fn add_field(form: &mut Vec<(String, String)>, name: &str, value: &str)
    ensures
        fields(final(form)@) == fields(old(form)@).push((name@, value@)),
{
    let ghost before = form@;
    form.push((name.to_owned(), value.to_owned()));
    proof {
        assert(fields(form@) =~= fields(before).push((name@, value@)));
    }
}

/// The form that refreshes an access token.
pub fn refresh_form(cfg: &Auth0Config, refresh_token: &str) -> (form: Vec<(String, String)>)
    ensures
        fields(form@) == seq![
            ("grant_type"@, "refresh_token"@),
            ("client_id"@, cfg.client_id@),
            ("refresh_token"@, refresh_token@),
        ],
{
    let mut form: Vec<(String, String)> = Vec::new();
    add_field(&mut form, "grant_type", "refresh_token");
    add_field(&mut form, "client_id", cfg.client_id.as_str());
    add_field(&mut form, "refresh_token", refresh_token);
    proof {
        assert(fields(form@) =~= seq![
            ("grant_type"@, "refresh_token"@),
            ("client_id"@, cfg.client_id@),
            ("refresh_token"@, refresh_token@),
        ]);
    }
    form
}

/// What the answer to a refresh means; `held` are the tokens held before, where
/// their names are to be kept.
pub open spec fn refresh_spec(
    exchange: Exchange<TokenResponse>,
    held: Option<&Auth0Tokens>,
    now: u64,
    r: Result<Auth0Tokens, RefreshError>,
) -> bool {
    if !exchange.succeeded() {
        match exchange.error {
            Some(e) if is_terminal_spec(e.error@) => r matches Err(RefreshError::SignInRequired(text)) && text@
                == refusal_text(e),
            _ => r matches Err(RefreshError::Transient(text)) && text@ == "Auth0 could not refresh the access token: "@
                + describe_spec(exchange.error, exchange.status),
        }
    } else {
        match exchange.reply {
            Err(why) => r matches Err(RefreshError::Transient(text)) && text@ == "could not read the refresh response: "@
                + why@,
            Ok(body) => r matches Ok(renewed) && exists|fresh: Auth0Tokens| #[trigger]
                tokens_spec(body, now, fresh) && renewed == (match held {
                    None => fresh,
                    Some(held) => Auth0Tokens {
                        recorded_organization: carried(held.recorded_organization, fresh.recorded_organization),
                        ..fresh
                    },
                }),
        }
    }
}

/// What the answer to a refresh means.
pub fn refresh_with(exchange: Exchange<TokenResponse>, held: Option<&Auth0Tokens>, now: u64) -> (r: Result<
    Auth0Tokens,
    RefreshError,
>)
    requires
        exchange.wf(),
        countable(exchange, now),
    ensures
        refresh_spec(exchange, held, now, r),
{
    if !exchange.is_success() {
        if let Some(e) = &exchange.error {
            if is_terminal(e.error.as_str()) {
                return Err(RefreshError::SignInRequired(refusal(e)));
            }
        }
        let mut text = "Auth0 could not refresh the access token: ".to_owned();
        text.push_str(describe(&exchange.error, exchange.status).as_str());
        return Err(RefreshError::Transient(text));
    }
    match exchange.reply {
        Err(why) => {
            let mut text = "could not read the refresh response: ".to_owned();
            text.push_str(why.as_str());
            Err(RefreshError::Transient(text))
        },
        Ok(body) => {
            let mut renewed = tokens_from(body, now);
            if let Some(held) = held {
                let ghost fresh = renewed;
                carry_name(held, &mut renewed);
                assert(tokens_spec(body, now, fresh));
            }
            Ok(renewed)
        },
    }
}

/// A session is over exactly where the answer refuses it for good: any other
/// failure leaves it to be tried again.
pub proof fn law_only_a_terminal_refusal_ends_the_session(
    exchange: Exchange<TokenResponse>,
    held: Option<&Auth0Tokens>,
    now: u64,
    r: Result<Auth0Tokens, RefreshError>,
)
    requires
        refresh_spec(exchange, held, now, r),
    ensures
        (r matches Err(RefreshError::SignInRequired(_))) <==> (!exchange.succeeded() && exchange.error is Some
            && is_terminal_spec(exchange.error->0.error@)),
{
}

/// A URL of the tenant is its domain between `https://` and the path: slashes
/// at the end of the domain make no difference, however many there are.
pub proof fn law_slashes_make_no_difference(cfg: Auth0Config, plain: Auth0Config, path: Seq<char>, slashes: Seq<char>)
    requires
        plain.domain@.len() > 0 ==> plain.domain@.last() != '/',
        forall|i: int| 0 <= i < slashes.len() ==> slashes[i] == '/',
        cfg.domain@ == plain.domain@ + slashes,
    ensures
        cfg.url_spec(path) == "https://"@ + plain.domain@ + path,
{
    lemma_without_slashes(plain.domain@, slashes);
}

proof fn lemma_without_slashes(s: Seq<char>, slashes: Seq<char>)
    requires
        s.len() > 0 ==> s.last() != '/',
        forall|i: int| 0 <= i < slashes.len() ==> slashes[i] == '/',
    ensures
        without_slashes(s + slashes) == s,
    decreases slashes.len(),
{
    if slashes.len() > 0 {
        assert((s + slashes).last() == slashes[slashes.len() - 1]);
        assert((s + slashes).drop_last() =~= s + slashes.drop_last());
        lemma_without_slashes(s, slashes.drop_last());
    } else {
        assert(s + slashes =~= s);
    }
}

/// Claims with an organization's id name that organization, by the first of
/// the two names that they hold; without an id they name none, whatever names
/// they hold.
pub proof fn law_claims_name_their_organization(claims: OrganizationClaims)
    ensures
        organization_from_spec(None) == TokenOrganization::Unreadable,
        organization_from_spec(Some(claims)) != TokenOrganization::Unreadable,
        organization_from_spec(Some(claims)) == TokenOrganization::Personal <==> claims.org_id is None,
        organization_from_spec(Some(claims)) matches TokenOrganization::In(org) ==> {
            &&& org.id@ == claims.org_id->0@
            &&& claims.org_name is Some ==> org.name == claims.org_name
            &&& claims.org_name is None ==> org.name == claims.namespaced_name
        },
{
}

/// A token says what the JSON in its second part says, whatever stands in the
/// parts around it; without a second part, or where that holds no JSON, it
/// cannot be read.
pub proof fn law_only_the_second_part_is_read(
    header: Seq<char>,
    payload: Seq<char>,
    signature: Seq<char>,
    r: TokenOrganization,
)
    requires
        free_of(header, '.'),
        free_of(payload, '.'),
    ensures
        ({
            let token = header + seq!['.'] + (payload + seq!['.'] + signature);
            let claims = match base64url_reading(payload) {
                Some(bytes) => json_reading(bytes),
                None => None,
            };
            &&& claims is None ==> (token_organization(token, r) <==> r == TokenOrganization::Unreadable)
            &&& claims matches Some(said) ==> (token_organization(token, r) <==> match r {
                TokenOrganization::Unreadable => false,
                TokenOrganization::Personal => !said.contains_key("org_id"@),
                TokenOrganization::In(org) => said.contains_key("org_id"@) && org.id@ == said["org_id"@] && (match org.name {
                    Some(name) => if said.contains_key("org_name"@) {
                        name@ == said["org_name"@]
                    } else {
                        said.contains_key("https://identity.isekai.tools/org_name"@) && name@
                            == said["https://identity.isekai.tools/org_name"@]
                    },
                    None => !said.contains_key("org_name"@) && !said.contains_key(
                        "https://identity.isekai.tools/org_name"@,
                    ),
                }),
            })
        }),
        token_organization(header, r) <==> r == TokenOrganization::Unreadable,
{
    let rest = payload + seq!['.'] + signature;
    let token = header + seq!['.'] + rest;
    law_cut_at_the_first(header, '.', rest);
    law_cut_at_the_first(payload, '.', signature);
    law_pieces_make_the_whole(signature, '.');
    let parts = split_spec(token, '.');
    assert(parts =~= seq![header] + (seq![payload] + split_spec(signature, '.')));
    assert(parts[1] == payload);
    assert(parts.len() >= 2);
    assert(split_spec(header, '.').len() == 1);
}

/// A token is replaced from a minute before it expires on, and from then on for
/// good.
pub proof fn law_replaced_a_minute_before_it_expires(expires_at: u64, now: u64, later: u64)
    ensures
        stale(expires_at, now) <==> expires_at - now <= 60,
        stale(expires_at, now) && now <= later ==> stale(expires_at, later),
{
}

/// The name that is shown is the token's own, else the one recorded for the
/// same organization, else none.
pub proof fn law_missing_name_comes_from_the_record(org: Organization, seen: Organization)
    ensures
        org.name is None && seen.id@ == org.id@ ==> named_spec(org, Some(seen)).name == seen.name,
        named_spec(org, None) == org,
{
}

/// What is recorded after a refresh: always of the organization that the
/// refresh named, where it named one; a name that it brought is kept, and one
/// that was known takes the place of a missing one only for the same
/// organization. A record that had no name is not carried on.
pub proof fn law_record_follows_the_refresh(held: Option<Organization>, fresh: Option<Organization>)
    ensures
        fresh matches Some(org) ==> {
            &&& carried(held, fresh) matches Some(kept) && kept.id@ == org.id@
            &&& org.name is Some ==> carried(held, fresh) == fresh
            &&& org.name is None ==> carried(held, fresh)->0.name == (if held is Some && held->0.id@ == org.id@ {
                held->0.name
            } else {
                None
            })
        },
        fresh is None ==> (carried(held, fresh) is Some <==> held is Some && held->0.name is Some),
        fresh is None && carried(held, fresh) is Some ==> carried(held, fresh) == held,
        held is None ==> carried(held, fresh) == fresh,
{
}

/// What an answer to a refresh means: tokens where it succeeded and could be
/// read, and these are the answer's own, lasting from now for as long as it
/// says. Signing in again is called for exactly by four kinds of refusal.
pub proof fn law_refresh_brings_the_answers_own_tokens(
    exchange: Exchange<TokenResponse>,
    held: Option<&Auth0Tokens>,
    now: u64,
    r: Result<Auth0Tokens, RefreshError>,
)
    requires
        refresh_spec(exchange, held, now, r),
    ensures
        r is Ok <==> 200 <= exchange.status <= 299 && exchange.reply is Ok,
        r matches Ok(tokens) ==> {
            &&& tokens.access_token@ == exchange.reply->Ok_0.access_token@
            &&& tokens.refresh_token == exchange.reply->Ok_0.refresh_token
            &&& tokens.expires_at_unix == now + exchange.reply->Ok_0.expires_in
        },
        r matches Err(RefreshError::SignInRequired(_)) <==> !(200 <= exchange.status <= 299) && (exchange.error matches Some(e) && (
        e.error@ == "invalid_grant"@ || e.error@ == "unauthorized_client"@ || e.error@ == "access_denied"@ || e.error@
            == "invalid_client"@)),
{
}

/// A refusal is put in its own words where it has any, else by its kind, and
/// only without either by the status.
pub proof fn law_refusal_speaks_for_itself(e: ErrorResponse, status: u16)
    ensures
        e.error_description matches Some(text) ==> describe_spec(Some(e), status) == text@,
        e.error_description is None ==> describe_spec(Some(e), status) == e.error@,
        describe_spec(None, status) == "HTTP "@ + status_text_spec(status),
{
}

/// An organization is shown by its name and id, or by its id alone.
pub proof fn law_organization_is_shown_with_its_id(org: Organization)
    ensures
        org.name is None ==> org.text_spec() == org.id@,
        org.name matches Some(name) ==> name@.is_prefix_of(org.text_spec()) && org.text_spec().len() == name@.len()
            + org.id@.len() + 3 && org.text_spec().subrange(
            name@.len() as int + 2,
            name@.len() + 2 + org.id@.len() as int,
        ) == org.id@,
{
    reveal_strlit(" (");
    reveal_strlit(")");
    if let Some(name) = org.name {
        assert(name@.is_prefix_of(org.text_spec()));
        assert(org.text_spec().subrange(
            name@.len() as int + 2,
            name@.len() + 2 + org.id@.len() as int,
        ) =~= org.id@);
    }
}

/// The organization that is recorded with new tokens is the one that the
/// identity token names: none where there is no identity token, or where that
/// names none.
pub proof fn law_organization_is_recorded_off_the_identity_token(body: TokenResponse, now: u64, tokens: Auth0Tokens, org: Organization)
    requires
        tokens_spec(body, now, tokens),
    ensures
        body.id_token is None ==> tokens.recorded_organization is None,
        body.id_token matches Some(id_token) ==> {
            &&& tokens.recorded_organization == Some(org) ==> token_organization(id_token@, TokenOrganization::In(org))
            &&& token_organization(id_token@, TokenOrganization::In(org)) ==> (tokens.recorded_organization matches Some(kept)
                && kept.id@ == org.id@ && text_of(kept.name) == text_of(org.name))
        },
        tokens.expires_at_unix - now == body.expires_in,
        tokens.access_token@ == body.access_token@,
        tokens.refresh_token == body.refresh_token,
{
}

/// A refresh that may work later says why it did not: what the answer says,
/// where it refuses, and why it could not be read, where it could not. The end
/// of a session is told in the refusal's own words.
pub proof fn law_failed_refresh_says_why(
    exchange: Exchange<TokenResponse>,
    held: Option<&Auth0Tokens>,
    now: u64,
    error: RefreshError,
)
    requires
        refresh_spec(exchange, held, now, Err(error)),
    ensures
        200 <= exchange.status <= 299 ==> (exchange.reply matches Err(why) && error.message_spec()
            == "could not read the refresh response: "@ + why@),
        !(200 <= exchange.status <= 299) && error is Transient ==> error.message_spec()
            == "Auth0 could not refresh the access token: "@ + describe_spec(exchange.error, exchange.status),
        error is SignInRequired ==> (exchange.error matches Some(e) && error.message_spec()
            == "the Auth0 session has ended, sign in again: "@ + refusal_text(e)),
{
}

/// An answer that HTTP knows worked exactly where its status is in the two
/// hundreds.
pub proof fn law_two_hundreds_are_success<T>(exchange: Exchange<T>)
    ensures
        exchange.succeeded() <==> exchange.status as int / 100 == 2,
        exchange.wf() <==> 1 <= exchange.status as int / 100 <= 9,
{
}

} // verus!
