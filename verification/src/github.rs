//! Addressing the hosting API: request paths and URLs, the optional
//! basic-auth credential pair, and the success check on a response.

use vstd::prelude::*;

use crate::pagination::GithubRepos;
use crate::repo::RepoType;
use crate::text::{spec_decimal, u64_to_string};

verus! {

/// Number of repositories requested per listing page: the hosting
/// API's maximum.
pub const PER_PAGE: u32 = 100;

/// The versioned media type every API request asks for.
pub const API_VERSION: &'static str = "application/vnd.github.v3+json";

/// The API's base URL followed by a separating slash.
pub open spec fn endpoint_prefix() -> Seq<char> {
    "https://api.github.com/"@
}

/// The listing path for one owner: `users/<name>/repos` for a user,
/// `orgs/<name>/repos` for an organization.
pub open spec fn spec_listing_path(rt: RepoType, name: Seq<char>) -> Seq<char> {
    match rt {
        RepoType::User => "users/"@ + name + "/repos"@,
        RepoType::Org => "orgs/"@ + name + "/repos"@,
    }
}

/// The lookup path for one explicit repository: `repos/<owner>/<name>`.
pub open spec fn spec_repo_path(owner: Seq<char>, name: Seq<char>) -> Seq<char> {
    "repos/"@ + owner + "/"@ + name
}

/// The URL of one listing page: the path under the API endpoint, with
/// the public-type filter, the page size and the page number.
pub open spec fn spec_page_url(path: Seq<char>, per_page: nat, page: nat) -> Seq<char> {
    endpoint_prefix() + path + "?type=public&per_page="@ + spec_decimal(per_page) + "&page="@
        + spec_decimal(page)
}

/// Builds the listing path for one owner.
pub fn listing_path(name: &str, rt: RepoType) -> (p: String)
    ensures
        p@ == spec_listing_path(rt, name@),
{
    let mut p = String::new();
    match rt {
        RepoType::User => p.append("users/"),
        RepoType::Org => p.append("orgs/"),
    }
    p.append(name);
    p.append("/repos");
    proof {
        assert(p@ =~= spec_listing_path(rt, name@));
    }
    p
}

/// Builds the lookup path for one explicit repository.
pub fn repo_path(owner: &str, name: &str) -> (p: String)
    ensures
        p@ == spec_repo_path(owner@, name@),
{
    let mut p = String::new();
    p.append("repos/");
    p.append(owner);
    p.append("/");
    p.append(name);
    proof {
        assert(p@ =~= spec_repo_path(owner@, name@));
    }
    p
}

/// Puts a request path under the API endpoint.
pub fn api_url(path: &str) -> (u: String)
    ensures
        u@ == endpoint_prefix() + path@,
{
    let mut u = String::new();
    u.append("https://api.github.com/");
    u.append(path);
    proof {
        assert(u@ =~= endpoint_prefix() + path@);
    }
    u
}

/// Builds the URL of one listing page.
pub fn page_url(path: &str, per_page: u32, page: u32) -> (u: String)
    ensures
        u@ == spec_page_url(path@, per_page as nat, page as nat),
{
    let mut u = api_url(path);
    u.append("?type=public&per_page=");
    let pp = u64_to_string(per_page as u64);
    u.append(pp.as_str());
    u.append("&page=");
    let pg = u64_to_string(page as u64);
    u.append(pg.as_str());
    proof {
        assert(u@ =~= spec_page_url(path@, per_page as nat, page as nat));
    }
    u
}

/// A response that did not report success: its request URL, status
/// code and body text.
#[derive(Clone, Debug)]
pub struct ApiError {
    pub url: String,
    pub status: u16,
    pub body: String,
}

/// The failure text of a response: `<url> (<status>) - <body>`.
pub open spec fn spec_api_message(url: Seq<char>, status: nat, body: Seq<char>) -> Seq<char> {
    url + " ("@ + spec_decimal(status) + ") - "@ + body
}

impl ApiError {
    /// What went wrong, for the run's failure report.
    pub fn message(&self) -> (m: String)
        ensures
            m@ == spec_api_message(self.url@, self.status as nat, self.body@),
    {
        let mut m = self.url.clone();
        m.append(" (");
        let st = u64_to_string(self.status as u64);
        m.append(st.as_str());
        m.append(") - ");
        m.append(self.body.as_str());
        proof {
            assert(m@ =~= spec_api_message(self.url@, self.status as nat, self.body@));
        }
        m
    }
}

/// Accepts a response exactly when its status reports success; any
/// other status is a terminal error carrying the request URL, the
/// status and the body text.
pub fn check_status(url: String, status: u16, body: String) -> (r: Result<(), ApiError>)
    ensures
        200 <= status <= 299 ==> r is Ok,
        !(200 <= status <= 299) ==> (r matches Err(e) && e.url == url && e.status == status
            && e.body == body),
{
    if 200 <= status && status <= 299 {
        Ok(())
    } else {
        Err(ApiError { url, status, body })
    }
}

/// The API client's configuration: an optional credential pair for
/// basic authentication.
#[derive(Clone, Debug)]
pub struct Github {
    pub user: Option<String>,
    pub token: Option<String>,
}

impl Github {
    /// A client configuration with the given credentials.
    pub fn new(user: Option<String>, token: Option<String>) -> (g: Github)
        ensures
            g.user == user,
            g.token == token,
    {
        Github { user, token }
    }

    /// The basic-auth pair a request must carry: the user name and
    /// the token, exactly when a user name is configured.
    pub fn credentials(&self) -> (c: Option<(String, Option<String>)>)
        ensures
            match self.user {
                Some(u) => c matches Some(p) && p.0 == u && p.1 == self.token,
                None => c is None,
            },
    {
        match &self.user {
            Some(u) => {
                let t = match &self.token {
                    Some(t) => Some(t.clone()),
                    None => None,
                };
                Some((u.clone(), t))
            },
            None => None,
        }
    }

    /// A fresh cursor over the public repositories of the given
    /// user or organization.
    pub fn get_repos(&self, name: &str, rt: RepoType) -> (s: GithubRepos)
        ensures
            s.listing() == spec_listing_path(rt, name@),
            s.buffered() == Seq::<crate::repo::Repo>::empty(),
            s.cur_page() == 0,
            s.last_page() == 0,
            !s.is_failed(),
    {
        GithubRepos::new(name, rt)
    }
}

} // verus!
