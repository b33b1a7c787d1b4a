//! GitHub: profile counts, the languages used most, and the recently pushed repositories.

use vstd::prelude::*;
use vstd::string::*;
use crate::json::{
    array_of, bool_of, field, first_n, or_null, push_strings, str_of, strings_at, text_of, views,
    Json, JsonView,
};
use crate::model::{string_views, Github, GithubView, Repo, RepoView};
use crate::rank::{is_top_ranking, top_ranked};
use crate::sources::steam::u64_or_zero;
use crate::text::{owned, owned_or_empty};

verus! {

/// The repositories of a repository-list response.
pub open spec fn repo_entries(repos: JsonView) -> Seq<JsonView> {
    match array_of(repos) {
        Some(a) => a,
        None => Seq::empty(),
    }
}

/// A repository that is a fork of another.
pub open spec fn is_fork(r: JsonView) -> bool {
    bool_of(field(r, "fork"@)) == Some(true)
}

/// The repositories that are not forks, in order.
pub open spec fn own_repos(s: Seq<JsonView>) -> Seq<JsonView>
    decreases s.len(),
{
    if s.len() == 0 {
        Seq::empty()
    } else if is_fork(s.last()) {
        own_repos(s.drop_last())
    } else {
        own_repos(s.drop_last()).push(s.last())
    }
}

pub open spec fn repo(r: JsonView) -> RepoView {
    RepoView {
        name: text_of(field(r, "name"@)),
        description: str_of(field(r, "description"@)),
        language: str_of(field(r, "language"@)),
        stars: u64_or_zero(field(r, "stargazers_count"@)),
        url: text_of(field(r, "html_url"@)),
    }
}

/// The profile counts and the first eight repositories that are not forks.
pub open spec fn profile_counts_and_recent(user: JsonView, repos: JsonView, g: GithubView) -> bool {
    &&& g.repos == u64_or_zero(field(user, "public_repos"@))
    &&& g.followers == u64_or_zero(field(user, "followers"@))
    &&& g.recent == first_n(own_repos(repo_entries(repos)), 8).map_values(|r: JsonView| repo(r))
}

fn repo_of(r: &Json) -> (out: Repo)
    ensures
        out@ == repo(r@),
{
    let j = Some(r);
    Repo {
        name: owned_or_empty(Json::str_in(Json::get(j, "name"))),
        description: owned(Json::str_in(Json::get(j, "description"))),
        language: owned(Json::str_in(Json::get(j, "language"))),
        stars: match Json::u64_in(Json::get(j, "stargazers_count")) {
            Some(n) => n,
            None => 0,
        },
        url: owned_or_empty(Json::str_in(Json::get(j, "html_url"))),
    }
}

/// Builds the GitHub profile. Languages are ranked by how many repositories use them,
/// forks included, ties by name; the recent list leaves forks out.
pub fn normalize(user: &Json, repos: &Json) -> (g: Github)
    ensures
        profile_counts_and_recent(user@, repos@, g@),
        is_top_ranking(g@.languages, strings_at(repo_entries(repos@), "language"@), 6),
{
    let empty: Vec<Json> = Vec::new();
    let all: &Vec<Json> = match Json::array_in(Some(repos)) {
        Some(a) => a,
        None => &empty,
    };
    proof {
        assert(views(empty@) =~= Seq::<JsonView>::empty());
    }
    let ghost s = views(all@);
    assert(s == repo_entries(repos@));
    let mut langs: Vec<String> = Vec::new();
    assert(string_views(langs@) =~= Seq::<Seq<char>>::empty());
    push_strings(&mut langs, all, "language", all.len());
    assert(first_n(s, all.len() as int) == s);
    assert(string_views(langs@) =~= strings_at(s, "language"@));
    let languages = top_ranked(&langs, 6);
    let mut recent: Vec<Repo> = Vec::new();
    let mut i: usize = 0;
    assert(s.take(0) =~= Seq::<JsonView>::empty());
    assert(recent@.map_values(|r: Repo| r@) =~= first_n(own_repos(s.take(0)), 8).map_values(|r: JsonView| repo(r)));
    while i < all.len()
        invariant
            s == views(all@),
            i <= all.len(),
            recent@.map_values(|r: Repo| r@) == first_n(own_repos(s.take(i as int)), 8).map_values(
                |r: JsonView| repo(r),
            ),
            recent.len() <= 8,
        decreases all.len() - i,
    {
        assert(s.take(i + 1).drop_last() =~= s.take(i as int));
        assert(s.take(i + 1).last() == all@[i as int]@);
        let fork = match Json::bool_in(Json::get(Some(&all[i]), "fork")) {
            Some(b) => b,
            None => false,
        };
        if !fork && recent.len() < 8 {
            let ghost prev = recent@;
            recent.push(repo_of(&all[i]));
            assert(recent@.map_values(|r: Repo| r@) =~= prev.map_values(|r: Repo| r@).push(repo(all@[i as int]@)));
            assert(recent@.map_values(|r: Repo| r@) =~= first_n(own_repos(s.take(i + 1)), 8).map_values(
                |r: JsonView| repo(r),
            ));
        } else {
            proof {
                let before = own_repos(s.take(i as int));
                assert(recent@.map_values(|r: Repo| r@).len() == recent.len());
                assert(first_n(before, 8).map_values(|r: JsonView| repo(r)).len() == first_n(before, 8).len());
                assert(recent.len() == first_n(before, 8).len());
                if is_fork(all@[i as int]@) {
                    assert(own_repos(s.take(i + 1)) == before);
                } else {
                    assert(own_repos(s.take(i + 1)) == before.push(all@[i as int]@));
                    assert(before.len() >= 8);
                    assert(before.push(all@[i as int]@).take(8) =~= before.take(8));
                }
                assert(first_n(own_repos(s.take(i + 1)), 8) =~= first_n(before, 8));
            }
        }
        i += 1;
    }
    assert(s.take(all.len() as int) =~= s);
    let repos_count = match Json::u64_in(Json::get(Some(user), "public_repos")) {
        Some(n) => n,
        None => 0,
    };
    let followers = match Json::u64_in(Json::get(Some(user), "followers")) {
        Some(n) => n,
        None => 0,
    };
    Github { repos: repos_count, followers, languages, recent }
}

/// The profile URL.
pub fn user_url(user: &str) -> (r: String)
    ensures
        r@ == "https://api.github.com/users/"@ + user@,
{
    let mut u = String::from_str("https://api.github.com/users/");
    u.append(user);
    u
}

/// The URL of the ten most recently pushed repositories.
pub fn repos_url(user: &str) -> (r: String)
    ensures
        r@ == "https://api.github.com/users/"@ + user@ + "/repos?sort=pushed&per_page=10"@,
{
    let mut u = String::from_str("https://api.github.com/users/");
    u.append(user);
    u.append("/repos?sort=pushed&per_page=10");
    u
}

/// No fork reaches the recent list, and it holds no more repositories than the response.
pub proof fn law_recent_repos_are_not_forks(s: Seq<JsonView>)
    ensures
        forall|i: int| 0 <= i < own_repos(s).len() ==> !is_fork(#[trigger] own_repos(s)[i]),
        own_repos(s).len() <= s.len(),
    decreases s.len(),
{
    if s.len() > 0 {
        law_recent_repos_are_not_forks(s.drop_last());
    }
}


/// Each repository of the recent list is read from the repository at the same position
/// among the non-forks of the response: its name, description, language and stars from
/// the fields of those names, and its link from `html_url`, the repository's page (empty
/// when absent). At most eight are listed.
pub proof fn law_recent_repos_link_their_pages(user: JsonView, repos: JsonView, g: GithubView)
    requires
        profile_counts_and_recent(user, repos, g),
    ensures
        g.recent.len() == if own_repos(repo_entries(repos)).len() < 8 {
            own_repos(repo_entries(repos)).len()
        } else {
            8
        },
        forall|k: int|
            0 <= k < g.recent.len() ==> {
                let r = own_repos(repo_entries(repos))[k];
                &&& (#[trigger] g.recent[k]).url == text_of(field(r, "html_url"@))
                &&& g.recent[k].name == text_of(field(r, "name"@))
                &&& g.recent[k].description == str_of(field(r, "description"@))
                &&& g.recent[k].language == str_of(field(r, "language"@))
                &&& g.recent[k].stars == u64_or_zero(field(r, "stargazers_count"@))
            },
{
}

} // verus!
