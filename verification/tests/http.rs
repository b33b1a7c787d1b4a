use kiiyo_api::http::{env_value, missing_env, redact_url, status_error, AppError};

#[test]
fn redaction_keeps_scheme_host_and_path_only() {
    let r = redact_url("https://ws.audioscrobbler.com/2.0/?method=test&api_key=SHOULD_NOT_APPEAR&extra=data");
    assert_eq!(r, "https://ws.audioscrobbler.com/2.0/");
    assert!(!r.contains("SHOULD_NOT_APPEAR"));
    assert!(!r.contains("api_key"));
}

#[test]
fn redaction_drops_the_port_the_user_and_the_fragment() {
    assert_eq!(redact_url("http://user:pw@127.0.0.1:1/api/endpoint?key=SHOULD_NOT_APPEAR&user=123#frag"), "http://127.0.0.1/api/endpoint");
}

#[test]
fn an_unparseable_url_is_not_repeated() {
    assert_eq!(redact_url("not a url?key=SHOULD_NOT_APPEAR"), "<unparseable url>");
}

#[test]
fn a_url_without_a_host_names_it_unknown() {
    assert_eq!(redact_url("mailto:someone@example.test?subject=x"), "mailto://unknownsomeone@example.test");
}

#[test]
fn a_failed_status_names_the_code_and_the_redacted_url() {
    let e = status_error(403, "https://api.example.test/2.0/?method=test&api_key=SHOULD_NOT_APPEAR").unwrap();
    assert_eq!(e, AppError("403 Forbidden from https://api.example.test/2.0/".to_string()));
    let e = status_error(429, "https://api.example.test/api/endpoint?key=SHOULD_NOT_APPEAR&user=123").unwrap();
    assert_eq!(e.0, "429 Too Many Requests from https://api.example.test/api/endpoint");
    assert!(!e.0.contains("key="));
    let e = status_error(500, "http://127.0.0.1:9/test").unwrap();
    assert_eq!(e.0, "500 Internal Server Error from http://127.0.0.1/test");
}

#[test]
fn an_unlisted_status_still_names_its_code() {
    assert_eq!(status_error(599, "https://h/p").unwrap().0, "599 <unknown status code> from https://h/p");
    assert_eq!(status_error(199, "https://h/p").unwrap().0, "199 <unknown status code> from https://h/p");
}

#[test]
fn every_2xx_status_is_a_success() {
    assert_eq!(status_error(200, "https://h/p"), None);
    assert_eq!(status_error(204, "https://h/p"), None);
    assert_eq!(status_error(299, "https://h/p"), None);
    assert!(status_error(300, "https://h/p").is_some());
}

#[test]
fn a_missing_setting_is_reported_by_name() {
    let err = missing_env("A_KEY_THAT_IS_NOT_SET");
    assert!(err.0.contains("A_KEY_THAT_IS_NOT_SET"), "got: {}", err.0);
    assert_eq!(err.0, "missing env var: A_KEY_THAT_IS_NOT_SET");
}

#[test]
fn an_empty_setting_counts_as_absent() {
    assert_eq!(env_value(None), None);
    assert_eq!(env_value(Some(String::new())), None);
    assert_eq!(env_value(Some("t0ken".to_string())), Some("t0ken".to_string()));
}
