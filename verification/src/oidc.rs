//! Where a job's workload identity tokens come from.

use crate::codec::{status_reason, status_text, status_text_spec};
use crate::names::{law_name_added_is_there, with, NameSet};
use crate::text::{chars_of, decimal_spec, join, join_spec, same, split_once, split_once_spec, trim, trim_spec, views};
use vstd::prelude::*;

verus! {

/// How long minting a token may take, in seconds.
pub const MINT_TIMEOUT: u64 = 20;

/// Names the variable that holds the URL of the token endpoint.
pub const URL_VAR: &'static str = "ACTIONS_ID_TOKEN_REQUEST_URL";

/// Names the variable that holds the token to show it.
pub const TOKEN_VAR: &'static str = "ACTIONS_ID_TOKEN_REQUEST_TOKEN";

/// What `reqwest::Url` makes of `url` with a pair appended to its query; none
/// where it is not a URL.
pub uninterp spec fn url_with_pair(url: Seq<char>, name: Seq<char>, value: Seq<char>) -> Option<Seq<char>>;

/// However much of it is escaped, `url` with a pair appended has a length that
/// 32 bits can count.
///
/// A character of a path, a query or a pair takes at most twelve bytes when it
/// is escaped; one of a host name stays below 256 when it is mapped and written
/// in Punycode.
pub open spec fn fits_in_a_url(url: Seq<char>, name: Seq<char>, value: Seq<char>) -> bool {
    256 * url.len() + 12 * (name.len() + value.len()) + 64 <= u32::MAX
}

/// `reqwest::Url::parse`, then `query_pairs_mut().append_pair`, then the URL as
/// text; none where the text is not a URL. It counts places in the URL with 32
/// bits, and the URL has to fit.
#[verifier::external_body]
fn append_pair(url: &str, name: &str, value: &str) -> (r: Option<String>)
    requires
        fits_in_a_url(url@, name@, value@),
    ensures
        match r {
            Some(text) => url_with_pair(url@, name@, value@) == Some(text@),
            None => url_with_pair(url@, name@, value@) is None,
        },
{
    let mut parsed = reqwest::Url::parse(url).ok()?;
    parsed.query_pairs_mut().append_pair(name, value);
    Some(parsed.to_string())
}

/// Why no workload identity token was minted.
#[derive(Debug)]
pub enum OidcError {
    /// The runner provides no way to mint one.
    NoRunner,
    /// The endpoint's URL is not one.
    NotAUrl,
    /// The endpoint refused.
    Refused { audience: String, status: u16, body: String },
    /// The endpoint's answer could not be read.
    Unexpected(String),
}

impl OidcError {
    /// The error's status is one that HTTP knows.
    pub open spec fn wf(self) -> bool {
        self matches OidcError::Refused { status, .. } ==> 100 <= status <= 999
    }

    /// The error in words.
    pub open spec fn message_spec(self) -> Seq<char> {
        match self {
            OidcError::NoRunner => URL_VAR@ + " and "@ + TOKEN_VAR@
                + " are not set, so no workload identity token can be minted.\nGitHub Actions provides them only when the job asks:\n\n  permissions:\n    id-token: write\n\nAdd that to the job (not only the workflow) and run again."@,
            OidcError::NotAUrl => URL_VAR@ + " is not a URL"@,
            OidcError::Refused { audience, status, body } => "GitHub Actions refused an id token for `"@ + audience@ + "`: "@
                + status_text_spec(status) + " "@ + body@,
            OidcError::Unexpected(why) => "the GitHub Actions token endpoint answered something unexpected: "@ + why@,
        }
    }

    /// The error in words.
    pub fn message(&self) -> (text: String)
        requires
            self.wf(),
        ensures
            text@ == self.message_spec(),
    {
        match self {
            OidcError::NoRunner => {
                let mut text = URL_VAR.to_owned();
                text.push_str(" and ");
                text.push_str(TOKEN_VAR);
                text.push_str(
                    " are not set, so no workload identity token can be minted.\nGitHub Actions provides them only when the job asks:\n\n  permissions:\n    id-token: write\n\nAdd that to the job (not only the workflow) and run again.",
                );
                text
            },
            OidcError::NotAUrl => {
                let mut text = URL_VAR.to_owned();
                text.push_str(" is not a URL");
                text
            },
            OidcError::Refused { audience, status, body } => {
                let mut text = "GitHub Actions refused an id token for `".to_owned();
                text.push_str(audience.as_str());
                text.push_str("`: ");
                let shown = status_text(*status);
                proof {
                    assert(shown@ =~= status_text_spec(*status));
                }
                text.push_str(shown.as_str());
                text.push_str(" ");
                text.push_str(body.as_str());
                text
            },
            OidcError::Unexpected(why) => {
                let mut text = "the GitHub Actions token endpoint answered something unexpected: ".to_owned();
                text.push_str(why.as_str());
                text
            },
        }
    }
}

/// The tokens that a GitHub Actions runner mints.
pub struct GithubActionsOidc {
    /// The URL of the token endpoint.
    pub url: String,
    /// The token to show it.
    pub request_token: String,
}

/// A variable that is set to something.
pub open spec fn set_to(value: Option<String>) -> bool {
    value matches Some(text) && text@.len() > 0
}

impl GithubActionsOidc {
    /// The runner's endpoint, from what [`URL_VAR`] and [`TOKEN_VAR`] hold;
    /// both must be set to something.
    pub fn from_env(url: Option<String>, request_token: Option<String>) -> (r: Result<Self, OidcError>)
        ensures
            set_to(url) && set_to(request_token) ==> (r matches Ok(source) && source.url == url->0
                && source.request_token == request_token->0),
            !(set_to(url) && set_to(request_token)) ==> r matches Err(OidcError::NoRunner),
            r is Ok <==> url is Some && url->0@.len() > 0 && request_token is Some && request_token->0@.len() > 0,
    {
        match (url, request_token) {
            (Some(url), Some(request_token)) => {
                if url.as_str().is_empty() || request_token.as_str().is_empty() {
                    Err(OidcError::NoRunner)
                } else {
                    Ok(GithubActionsOidc { url, request_token })
                }
            },
            _ => Err(OidcError::NoRunner),
        }
    }

    /// Whether the URL for `audience` has a length that 32 bits can count.
    pub fn fits(&self, audience: &str) -> (r: bool)
        ensures
            r == fits_in_a_url(self.url@, "audience"@, audience@),
    {
        proof {
            reveal_strlit("audience");
        }
        let url: u128 = chars_of(self.url.as_str()).len() as u128;
        let value: u128 = chars_of(audience).len() as u128;
        256 * url + 12 * (8 + value) + 64 <= u32::MAX as u128
    }

    /// The URL to ask for a token for `audience`.
    pub fn request_url(&self, audience: &str) -> (r: Result<String, OidcError>)
        requires
            fits_in_a_url(self.url@, "audience"@, audience@),
        ensures
            match url_with_pair(self.url@, "audience"@, audience@) {
                Some(text) => r matches Ok(given) && given@ == text,
                None => r matches Err(OidcError::NotAUrl),
            },
    {
        match append_pair(self.url.as_str(), "audience", audience) {
            Some(text) => Ok(text),
            None => Err(OidcError::NotAUrl),
        }
    }
}

/// What the token endpoint's answer means. `value` is the token in the body,
/// or why there is none.
pub fn minted(audience: &str, status: u16, body: String, value: Result<String, String>) -> (r: Result<String, OidcError>)
    requires
        100 <= status <= 999,
    ensures
        if 200 <= status <= 299 {
            match value {
                Ok(token) => r == Ok::<String, OidcError>(token),
                Err(why) => r == Err::<String, OidcError>(OidcError::Unexpected(why)),
            }
        } else {
            r matches Err(OidcError::Refused { audience: named, status: code, body: said }) && named@ == audience@ && code
                == status && said == body
        },
{
    if 200 <= status && status <= 299 {
        match value {
            Ok(token) => Ok(token),
            Err(why) => Err(OidcError::Unexpected(why)),
        }
    } else {
        Err(OidcError::Refused { audience: audience.to_owned(), status, body })
    }
}

/// Tokens that something else keeps in files, one per audience.
pub struct TokenFiles {
    files: Vec<(String, String)>,
}

/// The pairs of strings, by their characters.
pub open spec fn pair_views(pairs: Seq<(String, String)>) -> Seq<(Seq<char>, Seq<char>)> {
    pairs.map_values(|pair: (String, String)| (pair.0@, pair.1@))
}

/// The file for an audience: where it was named twice, the last one.
pub open spec fn file_for(files: Seq<(Seq<char>, Seq<char>)>, audience: Seq<char>) -> Option<Seq<char>>
    decreases files.len(),
{
    if files.len() == 0 {
        None
    } else if files.last().0 == audience {
        Some(files.last().1)
    } else {
        file_for(files.drop_last(), audience)
    }
}

/// The audiences there are files for, each once.
pub open spec fn audiences(files: Seq<(Seq<char>, Seq<char>)>) -> Seq<Seq<char>>
    decreases files.len(),
{
    if files.len() == 0 {
        seq![]
    } else {
        with(audiences(files.drop_last()), files.last().0)
    }
}

/// Why there is no token file.
#[derive(Debug)]
pub enum TokenFileError {
    /// The argument is not a pair.
    NotAPair(String),
    /// One half of the pair is empty.
    EmptyHalf(String),
    /// There is no file for this audience, only for these.
    UnknownAudience { audience: String, known: Vec<String> },
}

impl TokenFileError {
    /// The error in words.
    pub open spec fn message_spec(self) -> Seq<char> {
        match self {
            TokenFileError::NotAPair(arg) => "expected `audience=path`, got `"@ + arg@
                + "` \u{2014} one file per audience"@,
            TokenFileError::EmptyHalf(arg) => "expected `audience=path`, got `"@ + arg@ + "`"@,
            TokenFileError::UnknownAudience { audience, known } => "no token file for audience `"@ + audience@
                + "` (have: "@ + (if known@.len() == 0 {
                "none"@
            } else {
                join_spec(views(known@), ", "@)
            }) + ")"@,
        }
    }

    /// The error in words.
    pub fn message(&self) -> (text: String)
        ensures
            text@ == self.message_spec(),
    {
        match self {
            TokenFileError::NotAPair(arg) => {
                let mut text = "expected `audience=path`, got `".to_owned();
                text.push_str(arg.as_str());
                text.push_str("` \u{2014} one file per audience");
                text
            },
            TokenFileError::EmptyHalf(arg) => {
                let mut text = "expected `audience=path`, got `".to_owned();
                text.push_str(arg.as_str());
                text.push_str("`");
                text
            },
            TokenFileError::UnknownAudience { audience, known } => {
                let list = if known.len() == 0 {
                    "none".to_owned()
                } else {
                    join(known, ", ")
                };
                let mut text = "no token file for audience `".to_owned();
                text.push_str(audience.as_str());
                text.push_str("` (have: ");
                text.push_str(list.as_str());
                text.push_str(")");
                text
            },
        }
    }
}

impl TokenFiles {
    /// The files, by audience.
    pub closed spec fn view(self) -> Seq<(Seq<char>, Seq<char>)> {
        pair_views(self.files@)
    }

    /// These files; where an audience is named twice, the last one counts.
    pub fn new(pairs: Vec<(String, String)>) -> (files: Self)
        ensures
            files.view() == pair_views(pairs@),
    {
        TokenFiles { files: pairs }
    }

    /// Read an argument `audience=path`; the path may hold further equals signs.
    pub fn parse_pair(arg: &str) -> (r: Result<(String, String), TokenFileError>)
        ensures
            match split_once_spec(arg@, '=') {
                None => r matches Err(TokenFileError::NotAPair(shown)) && shown@ == arg@,
                Some((audience, path)) => if audience.len() == 0 || path.len() == 0 {
                    r matches Err(TokenFileError::EmptyHalf(shown)) && shown@ == arg@
                } else {
                    r matches Ok(pair) && pair.0@ == audience && pair.1@ == path
                },
            },
    {
        match split_once(arg, '=') {
            None => Err(TokenFileError::NotAPair(arg.to_owned())),
            Some((audience, path)) => {
                if audience.as_str().is_empty() || path.as_str().is_empty() {
                    Err(TokenFileError::EmptyHalf(arg.to_owned()))
                } else {
                    Ok((audience, path))
                }
            },
        }
    }

    /// The file that holds the token for `audience`.
    pub fn path_for(&self, audience: &str) -> (r: Result<String, TokenFileError>)
        ensures
            match file_for(self.view(), audience@) {
                Some(path) => r matches Ok(given) && given@ == path,
                None => r matches Err(TokenFileError::UnknownAudience { audience: named, known }) && named@ == audience@
                    && views(known@) == audiences(self.view()),
            },
    {
        let mut i: usize = self.files.len();
        proof {
            assert(self.view().take(i as int) =~= self.view());
        }
        while i > 0
            invariant
                i <= self.files@.len(),
                file_for(self.view(), audience@) == file_for(self.view().take(i as int), audience@),
            decreases i,
        {
            proof {
                assert(self.view().take(i as int).drop_last() =~= self.view().take(i - 1));
                assert(self.view().take(i as int).last() == (self.files@[i - 1].0@, self.files@[i - 1].1@));
            }
            if same(self.files[i - 1].0.as_str(), audience) {
                return Ok(self.files[i - 1].1.clone());
            }
            i = i - 1;
        }
        let mut known = NameSet::new();
        let mut k: usize = 0;
        proof {
            assert(self.view().take(0) =~= Seq::<(Seq<char>, Seq<char>)>::empty());
        }
        while k < self.files.len()
            invariant
                k <= self.files@.len(),
                known@ == audiences(self.view().take(k as int)),
            decreases self.files@.len() - k,
        {
            proof {
                assert(self.view().take(k + 1).drop_last() =~= self.view().take(k as int));
                assert(self.view().take(k + 1).last() == (self.files@[k as int].0@, self.files@[k as int].1@));
            }
            known.insert(self.files[k].0.clone());
            k = k + 1;
        }
        proof {
            assert(self.view().take(k as int) =~= self.view());
        }
        Err(TokenFileError::UnknownAudience { audience: audience.to_owned(), known: known.to_vec() })
    }
}

/// The token in the contents of a file: without the white space around it.
pub fn token_in(contents: &str) -> (token: String)
    ensures
        token@ == trim_spec(contents@),
{
    trim(contents)
}

/// An audience has the file that was named for it last: exactly where the list
/// holds the two together and no later entry is for that audience. It has none
/// exactly where no entry is for it.
pub proof fn law_last_file_named_counts(files: Seq<(Seq<char>, Seq<char>)>, audience: Seq<char>, path: Seq<char>)
    ensures
        file_for(files, audience) == Some(path) <==> exists|i: int|
            0 <= i < files.len() && #[trigger] files[i] == (audience, path) && forall|j: int|
                i < j < files.len() ==> (#[trigger] files[j]).0 != audience,
        file_for(files, audience) is None <==> forall|i: int| 0 <= i < files.len() ==> (#[trigger] files[i]).0 != audience,
    decreases files.len(),
{
    if files.len() > 0 {
        let n = files.len() - 1;
        let rest = files.drop_last();
        law_last_file_named_counts(rest, audience, path);
        assert(forall|i: int| 0 <= i < n ==> rest[i] == files[i]);
        if files.last().0 == audience {
            assert(files[n].0 == audience);
            if files.last().1 == path {
                assert(files[n] == (audience, path));
            }
        } else {
            if file_for(rest, audience) == Some(path) {
                let i = choose|i: int|
                    0 <= i < rest.len() && #[trigger] rest[i] == (audience, path) && forall|j: int|
                        i < j < rest.len() ==> (#[trigger] rest[j]).0 != audience;
                assert(files[i] == (audience, path));
                assert forall|j: int| i < j < files.len() implies (#[trigger] files[j]).0 != audience by {
                    if j < n {
                        assert(rest[j].0 != audience);
                    }
                }
            }
            if exists|i: int|
                0 <= i < files.len() && #[trigger] files[i] == (audience, path) && forall|j: int|
                    i < j < files.len() ==> (#[trigger] files[j]).0 != audience {
                let i = choose|i: int|
                    0 <= i < files.len() && #[trigger] files[i] == (audience, path) && forall|j: int|
                        i < j < files.len() ==> (#[trigger] files[j]).0 != audience;
                assert(rest[i] == (audience, path));
                assert forall|j: int| i < j < rest.len() implies (#[trigger] rest[j]).0 != audience by {
                    assert(files[j].0 != audience);
                }
            }
            if forall|i: int| 0 <= i < rest.len() ==> (#[trigger] rest[i]).0 != audience {
                assert forall|i: int| 0 <= i < files.len() implies (#[trigger] files[i]).0 != audience by {
                    if i < n {
                        assert(rest[i].0 != audience);
                    }
                }
            }
            if forall|i: int| 0 <= i < files.len() ==> (#[trigger] files[i]).0 != audience {
                assert forall|i: int| 0 <= i < rest.len() implies (#[trigger] rest[i]).0 != audience by {
                    assert(files[i].0 != audience);
                }
            }
        }
    }
}

/// The audiences that there are files for are those that were named, each
/// once, in the order in which they were named first.
pub proof fn law_every_audience_is_listed_once(files: Seq<(Seq<char>, Seq<char>)>, one: (Seq<char>, Seq<char>))
    ensures
        audiences(files).no_duplicates(),
        forall|i: int| 0 <= i < files.len() ==> audiences(files).contains((#[trigger] files[i]).0),
        audiences(files).is_prefix_of(audiences(files.push(one))),
        audiences(files).contains(one.0) ==> audiences(files.push(one)) == audiences(files),
        !audiences(files).contains(one.0) ==> audiences(files.push(one)) == audiences(files).push(one.0),
        audiences(Seq::<(Seq<char>, Seq<char>)>::empty()).len() == 0,
    decreases files.len(),
{
    assert(files.push(one).drop_last() =~= files);
    if files.len() > 0 {
        let rest = files.drop_last();
        law_every_audience_is_listed_once(rest, files.last());
        law_name_added_is_there(audiences(rest), files.last().0);
        assert forall|i: int| 0 <= i < files.len() implies audiences(files).contains((#[trigger] files[i]).0) by {
            if i < rest.len() {
                assert(rest[i] == files[i]);
                assert(audiences(rest).contains(rest[i].0));
            }
        }
    }
}

/// A variable counts as set exactly where it holds at least one character.
pub proof fn law_empty_variable_is_not_set(text: String)
    ensures
        set_to(Some(text)) <==> text@.len() >= 1,
        !set_to(None),
{
}

/// A refusal names the audience, the status and what was said, in this order;
/// and an audience without a file is named with all that there are files for.
pub proof fn law_failure_to_mint_names_the_audience(audience: String, status: u16, body: String, known: Vec<String>)
    ensures
        (OidcError::Refused { audience, status, body }).message_spec() == "GitHub Actions refused an id token for `"@ + audience@
            + "`: "@ + (decimal_spec(status as nat) + " "@ + status_reason(status)) + " "@ + body@,
        known@.len() > 0 ==> (TokenFileError::UnknownAudience { audience, known }).message_spec() == "no token file for audience `"@
            + audience@ + "` (have: "@ + join_spec(views(known@), ", "@) + ")"@,
        known@.len() == 0 ==> (TokenFileError::UnknownAudience { audience, known }).message_spec() == "no token file for audience `"@
            + audience@ + "` (have: "@ + "none"@ + ")"@,
{
}

} // verus!
