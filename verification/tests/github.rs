use kiiyo_api::json::{Json, JsonNumber};
use kiiyo_api::http::bearer;
use kiiyo_api::sources::github::{normalize, repos_url, user_url};

fn conv(v: &serde_json::Value) -> Json {
    match v {
        serde_json::Value::Null => Json::Null,
        serde_json::Value::Bool(b) => Json::Bool(*b),
        serde_json::Value::Number(n) => {
            if let Some(u) = n.as_u64() {
                Json::Number(JsonNumber::PosInt(u))
            } else if let Some(i) = n.as_i64() {
                Json::Number(JsonNumber::NegInt(i))
            } else {
                Json::Number(JsonNumber::Float(n.to_string()))
            }
        }
        serde_json::Value::String(s) => Json::Str(s.clone()),
        serde_json::Value::Array(a) => Json::Array(a.iter().map(conv).collect()),
        serde_json::Value::Object(o) => {
            Json::Object(o.iter().map(|(k, v)| (k.clone(), conv(v))).collect())
        }
    }
}

fn j(text: &str) -> Json {
    conv(&serde_json::from_str::<serde_json::Value>(text).unwrap())
}

fn github_user() -> Json {
    j(r#"{ "login": "kiiyo", "public_repos": 23, "followers": 41 }"#)
}

fn github_repos() -> Json {
    j(r#"[
        { "name": "kiiyo.top", "description": "homepage", "language": "Rust",
          "stargazers_count": 3, "html_url": "https://github.com/kiiyo/kiiyo.top", "fork": false },
        { "name": "dotfiles", "description": null, "language": "Shell",
          "stargazers_count": 0, "html_url": "https://github.com/kiiyo/dotfiles", "fork": false },
        { "name": "some-fork", "description": "not mine", "language": "Rust",
          "stargazers_count": 9, "html_url": "https://github.com/kiiyo/some-fork", "fork": true }
    ]"#)
}

#[test]
fn normalize_reads_the_profile_counts() {
    let g = normalize(&github_user(), &github_repos());
    assert_eq!(g.repos, 23);
    assert_eq!(g.followers, 41);
}

#[test]
fn normalize_excludes_forks_from_the_repo_list() {
    let g = normalize(&github_user(), &github_repos());
    assert_eq!(g.recent.len(), 2);
    assert!(!g.recent.iter().any(|r| r.name == "some-fork"));
}

#[test]
fn normalize_keeps_a_null_description_as_none() {
    let g = normalize(&github_user(), &github_repos());
    let dotfiles = g.recent.iter().find(|r| r.name == "dotfiles").unwrap();
    assert_eq!(dotfiles.description, None);
    assert_eq!(dotfiles.stars, 0);
}

#[test]
fn normalize_ranks_languages_by_repo_count_including_forks() {
    let g = normalize(&github_user(), &github_repos());
    assert_eq!(g.languages, vec!["Rust".to_string(), "Shell".to_string()],
        "Rust appears in two repos, Shell in one");
}

#[test]
fn normalize_survives_an_empty_repo_list() {
    let g = normalize(&github_user(), &j("[]"));
    assert!(g.recent.is_empty());
    assert!(g.languages.is_empty());
    assert_eq!(g.repos, 23);
}

#[test]
fn languages_tie_break_by_name_and_stop_at_six() {
    let repos = j(r#"[
        { "language": "Zig" }, { "language": "Go" }, { "language": "C" }, { "language": "Ada" },
        { "language": "Nix" }, { "language": "Lua" }, { "language": "Elm" }, { "language": "Go" },
        { "language": null }, { "name": "no language" }
    ]"#);
    let g = normalize(&github_user(), &repos);
    assert_eq!(g.languages, vec!["Go", "Ada", "C", "Elm", "Lua", "Nix"]);
}

#[test]
fn the_recent_list_stops_at_eight() {
    let mut text = String::from("[");
    for i in 0..12 {
        if i > 0 {
            text.push(',');
        }
        text.push_str(&format!("{{ \"name\": \"r{i}\", \"fork\": {} }}", i % 3 == 0));
    }
    text.push(']');
    let g = normalize(&github_user(), &j(&text));
    let names: Vec<&str> = g.recent.iter().map(|r| r.name.as_str()).collect();
    assert_eq!(names, vec!["r1", "r2", "r4", "r5", "r7", "r8", "r10", "r11"]);
}

#[test]
fn a_profile_that_is_not_an_object_reads_as_zero() {
    let g = normalize(&j("null"), &j("{}"));
    assert_eq!(g.repos, 0);
    assert_eq!(g.followers, 0);
    assert!(g.recent.is_empty());
}

#[test]
fn the_request_urls_and_header() {
    assert_eq!(user_url("kiiyo"), "https://api.github.com/users/kiiyo");
    assert_eq!(repos_url("kiiyo"), "https://api.github.com/users/kiiyo/repos?sort=pushed&per_page=10");
    assert_eq!(bearer("t0ken"), "Bearer t0ken");
}
