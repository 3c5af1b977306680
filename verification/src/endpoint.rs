//! Addresses of the pages of a release catalog.

use vstd::prelude::*;
use vstd::string::*;

use crate::text::{decimal, push_decimal};

verus! {

/// The number of releases asked for per page: the most that the catalog serves.
pub const GITHUB_PER_PAGE: u32 = 100;

/// The address of one page of a repository's releases.
pub open spec fn releases_url(owner: Seq<char>, repo: Seq<char>, page: nat) -> Seq<char> {
    "https://api.github.com/repos/"@ + owner + "/"@ + repo + "/releases?page="@ + decimal(page)
        + "&per_page="@ + decimal(GITHUB_PER_PAGE as nat)
}

/// The name under which a client announces itself: the tool's name, a slash, and
/// its version.
pub open spec fn user_agent_text(name: Seq<char>, version: Seq<char>) -> Seq<char> {
    name + "/"@ + version
}

/// Returns the address from which one page of a repository's releases is fetched.
/// Pages are numbered from 0 and hold up to [`GITHUB_PER_PAGE`] releases.
pub fn format_latest_releases(owner: String, repo: String, page: u32) -> (url: String)
    ensures
        url@ == releases_url(owner@, repo@, page as nat),
{
    let mut url = String::from_str("https://api.github.com/repos/");
    url.append(owner.as_str());
    url.append("/");
    url.append(repo.as_str());
    url.append("/releases?page=");
    push_decimal(&mut url, page);
    url.append("&per_page=");
    push_decimal(&mut url, GITHUB_PER_PAGE);
    url
}

/// Builds the name under which the client announces itself to the catalog.
pub fn user_agent(name: &str, version: &str) -> (agent: String)
    ensures
        agent@ == user_agent_text(name@, version@),
{
    let mut agent = String::from_str(name);
    agent.append("/");
    agent.append(version);
    agent
}

} // verus!
