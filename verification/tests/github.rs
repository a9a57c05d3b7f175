use webspec_fetch::error::{Failure, FetchError};
use webspec_fetch::github::{commit_url, parse_full_sha, read_response, str_field};
use webspec_fetch::tc39::{parse_pr_meta, Tc39Stage};

fn document(text: &str) -> serde_json::Value {
    read_response("u", 200, text.as_bytes()).unwrap()
}

#[test]
fn url_of_a_commit() {
    assert_eq!(
        commit_url("whatwg/html", "abc1234"),
        "https://api.github.com/repos/whatwg/html/commits/abc1234"
    );
}

#[test]
fn texts_are_required() {
    assert_eq!(str_field(&document("\"x\""), "f").unwrap(), "x");
    for other in ["null", "1", "true", "[\"x\"]", "{\"f\":\"x\"}"] {
        assert_eq!(
            str_field(&document(other), "a.b").unwrap_err().message(),
            "GitHub API response missing a.b"
        );
    }
}

#[test]
fn full_sha_of_a_commit() {
    assert_eq!(parse_full_sha(&document("{\"sha\":\"0123\"}")).unwrap(), "0123");
    for other in ["{}", "{\"sha\":null}", "[]", "\"sha\""] {
        assert_eq!(
            parse_full_sha(&document(other)).unwrap_err().message(),
            "GitHub API response missing sha"
        );
    }
}

#[test]
fn an_error_status_counts_before_the_body() {
    let url = "https://api.github.com/repos/x/pulls/1";
    for status in [400, 404, 500, 599] {
        assert_eq!(
            read_response(url, status, b"{}").unwrap_err().message(),
            "GitHub API request failed: https://api.github.com/repos/x/pulls/1"
        );
        assert!(matches!(
            read_response(url, status, b"oops"),
            Err(FetchError::ApiRequest { code, .. }) if code == status
        ));
    }
    for status in [200, 304, 399, 600] {
        assert!(read_response(url, status, b"{}").is_ok());
    }
}

#[test]
fn a_body_must_be_json() {
    for body in ["", "oops", "{", "{} {}"] {
        let error = read_response("u", 200, body.as_bytes()).unwrap_err();
        assert_eq!(error.message(), "error decoding response body");
        let expected = serde_json::from_slice::<serde_json::Value>(body.as_bytes()).unwrap_err();
        match error {
            FetchError::ResponseBody { cause } => {
                assert_eq!(cause.to_string(), expected.to_string())
            }
            other => panic!("unexpected error: {}", other.message()),
        }
    }
    assert!(read_response("u", 200, b"\xff").is_err());
}

#[test]
fn texts_inside_arrays_are_not_fields() {
    let meta = parse_pr_meta(&document("{\"head\":[{\"sha\":\"x\"}]}"));
    assert!(meta.unwrap_err().message().contains("head.repo.full_name"));
}

const DESCRIPTION: &str = "{\"head\":{\"sha\":\"aaaa\",\"ref\":\"fix #1\",\"repo\":\
    {\"full_name\":\"fork/proposal-x\",\"owner\":{\"login\":\"fork\"}}},\"base\":{\"ref\":\"main\"}}";

#[test]
fn a_pull_request_is_resolved_with_two_documents() {
    let stage = Tc39Stage::<String>::start("https://tc39.es/proposal-x/");
    assert_eq!(
        stage.request(85).unwrap(),
        "https://api.github.com/repos/tc39/proposal-x/pulls/85"
    );
    let stage = stage.advance(85, Ok(document(DESCRIPTION)));
    assert_eq!(
        stage.request(85).unwrap(),
        "https://api.github.com/repos/tc39/proposal-x/compare/main...fork:fix%20%231"
    );
    let stage = stage.advance(85, Ok(document("{\"merge_base_commit\":{\"sha\":\"bbbb\"}}")));
    assert!(stage.request(85).is_none());
    match stage {
        Tc39Stage::Finished(Ok(resolved)) => {
            assert_eq!(resolved.head_sha, "aaaa");
            assert_eq!(resolved.merge_base_sha, "bbbb");
            assert_eq!(
                resolved.base_html_url,
                "https://raw.githubusercontent.com/tc39/proposal-x/bbbb/index.html"
            );
            assert_eq!(resolved.pages.len(), 1);
            assert_eq!(
                resolved.pages[0].url,
                "https://raw.githubusercontent.com/fork/proposal-x/aaaa/index.html"
            );
        }
        other => panic!("unexpected stage: {other:?}"),
    }
}

#[test]
fn failed_lookups_say_what_was_looked_up() {
    let stage = Tc39Stage::start("https://tc39.es/ecma262").advance(7, Err("offline"));
    match stage {
        Tc39Stage::Finished(Err(Failure::During { context, cause })) => {
            assert_eq!(context.message(), "Failed to fetch PR #7 from tc39/ecma262");
            assert_eq!(cause, "offline");
        }
        other => panic!("unexpected stage: {other:?}"),
    }
    let stage = Tc39Stage::start("https://tc39.es/ecma262")
        .advance(7, Ok(document(DESCRIPTION)))
        .advance(7, Err("offline"));
    match stage {
        Tc39Stage::Finished(Err(Failure::During { context, cause })) => {
            assert_eq!(
                context.message(),
                "Failed to compute merge base for PR on tc39/ecma262"
            );
            assert_eq!(cause, "offline");
        }
        other => panic!("unexpected stage: {other:?}"),
    }
}

#[test]
fn unusable_documents_end_the_resolution() {
    let stage = Tc39Stage::<String>::start("https://tc39.es/ecma262").advance(7, Ok(document("{}")));
    match stage {
        Tc39Stage::Finished(Err(Failure::Detected(e))) => {
            assert!(e.message().contains("head.repo.full_name"))
        }
        other => panic!("unexpected stage: {other:?}"),
    }
    let stage = Tc39Stage::<String>::start("https://tc39.es/ecma262")
        .advance(7, Ok(document(DESCRIPTION)))
        .advance(7, Ok(document("{}")));
    match stage {
        Tc39Stage::Finished(Err(Failure::Detected(e))) => {
            assert!(e.message().contains("merge_base_commit.sha"))
        }
        other => panic!("unexpected stage: {other:?}"),
    }
    let stage = Tc39Stage::<String>::start("not a url");
    match stage {
        Tc39Stage::Finished(Err(Failure::Detected(e))) => {
            assert_eq!(e.message(), "Invalid TC39 base URL: not a url")
        }
        other => panic!("unexpected stage: {other:?}"),
    }
}
