use webspec_fetch::error::FetchError;
use webspec_fetch::tc39::{
    build_resolved, committed_spec_file, compare_url, parse_merge_base, parse_pr_meta, pull_url,
    raw_spec_url, repo_from_base_url, repo_from_segments, PrMeta,
};

fn json(text: &str) -> serde_json::Value {
    serde_json::from_str(text).unwrap()
}

#[test]
fn repo_from_proposal_url() {
    assert_eq!(
        repo_from_base_url("https://tc39.es/proposal-defer-import-eval").unwrap(),
        "tc39/proposal-defer-import-eval"
    );
    // Trailing slash tolerated.
    assert_eq!(
        repo_from_base_url("https://tc39.es/proposal-defer-import-eval/").unwrap(),
        "tc39/proposal-defer-import-eval"
    );
    assert_eq!(repo_from_base_url("https://tc39.es/ecma262").unwrap(), "tc39/ecma262");
}

#[test]
fn repo_from_first_segment_that_is_not_empty() {
    assert_eq!(repo_from_base_url("https://tc39.es//ecma402/x").unwrap(), "tc39/ecma402");
    // The path comes back percent-encoded.
    assert_eq!(repo_from_base_url("https://tc39.es/a b").unwrap(), "tc39/a%20b");
}

#[test]
fn repo_needs_a_url_with_a_path() {
    let err = repo_from_base_url("tc39.es/ecma262").unwrap_err();
    assert_eq!(err.message(), "Invalid TC39 base URL: tc39.es/ecma262");
    match err {
        FetchError::InvalidBaseUrl { cause, .. } => {
            assert_eq!(cause, url::ParseError::RelativeUrlWithoutBase)
        }
        _ => panic!("expected an invalid base URL"),
    }
    let err = repo_from_base_url("https://tc39.es").unwrap_err();
    assert_eq!(err.message(), "TC39 base URL has no path segment: https://tc39.es");
    let err = repo_from_base_url("data:text/plain,hello").unwrap_err();
    assert_eq!(err.message(), "TC39 base URL has no path segment: data:text/plain,hello");
}

#[test]
fn repo_from_given_segments() {
    let segments = Ok(Some(vec!["".to_string(), "x".to_string(), "y".to_string()]));
    assert_eq!(repo_from_segments("b", segments).unwrap(), "tc39/x");
    assert!(matches!(
        repo_from_segments("b", Ok(Some(vec![]))),
        Err(FetchError::NoPathSegment { .. })
    ));
    assert!(matches!(
        repo_from_segments("b", Ok(None)),
        Err(FetchError::NoPathSegment { .. })
    ));
}

#[test]
fn raw_spec_url_format() {
    assert_eq!(
        raw_spec_url("tc39/proposal-x", "abc123", "index.html"),
        "https://raw.githubusercontent.com/tc39/proposal-x/abc123/index.html"
    );
    assert_eq!(
        raw_spec_url("tc39/ecma262", "abc123", "spec.html"),
        "https://raw.githubusercontent.com/tc39/ecma262/abc123/spec.html"
    );
}

#[test]
fn committed_spec_file_by_repo() {
    // Proposals commit the built index.html.
    assert_eq!(
        committed_spec_file("tc39/proposal-defer-import-eval"),
        "index.html"
    );
    assert_eq!(committed_spec_file("fork/proposal-x"), "index.html");
    // Standards commit only the ecmarkup source spec.html.
    assert_eq!(committed_spec_file("tc39/ecma262"), "spec.html");
    assert_eq!(committed_spec_file("tc39/ecma402"), "spec.html");
}

#[test]
fn committed_spec_file_looks_at_the_last_segment() {
    assert_eq!(committed_spec_file("proposal-x"), "index.html");
    assert_eq!(committed_spec_file("proposal-x/ecma262"), "spec.html");
    assert_eq!(committed_spec_file("tc39/my-proposal-x"), "spec.html");
    assert_eq!(committed_spec_file("tc39/"), "spec.html");
    assert_eq!(committed_spec_file("é/proposal-ü"), "index.html");
    assert_eq!(committed_spec_file(""), "spec.html");
}

/// Shape of a `GET /repos/tc39/.../pulls/N` response, modeled on PR #85
/// (a head branch on a fork). Only the fields we read are populated.
fn sample_pr_json() -> serde_json::Value {
    json(
        r#"{
            "head": {
                "sha": "9f07ab45af56350d49a256fb04308b705f17ebe7",
                "ref": "fix-issue-84",
                "repo": {
                    "full_name": "caiolima/proposal-defer-import-eval",
                    "owner": { "login": "caiolima" }
                }
            },
            "base": { "ref": "main" }
        }"#,
    )
}

#[test]
fn parse_pr_meta_extracts_fields() {
    let meta = parse_pr_meta(&sample_pr_json()).unwrap();
    assert_eq!(meta.head_repo, "caiolima/proposal-defer-import-eval");
    assert_eq!(meta.head_sha, "9f07ab45af56350d49a256fb04308b705f17ebe7");
    assert_eq!(meta.head_owner, "caiolima");
    assert_eq!(meta.head_ref, "fix-issue-84");
    assert_eq!(meta.base_ref, "main");
}

#[test]
fn parse_pr_meta_missing_head_repo_errors() {
    // A deleted fork leaves head.repo null; surface a clear error rather
    // than panicking.
    let value = json(
        r#"{
            "head": { "sha": "abc", "ref": "x", "repo": null },
            "base": { "ref": "main" }
        }"#,
    );
    let err = parse_pr_meta(&value).unwrap_err().message();
    assert!(err.contains("head.repo.full_name"), "unexpected error: {err}");
}

#[test]
fn parse_pr_meta_names_the_first_text_that_is_missing() {
    let whole = r#"{"head":{"sha":"s","ref":"r","repo":{"full_name":"n","owner":{"login":"l"}}},"base":{"ref":"b"}}"#;
    for (text, replacement, field) in [
        (r#""s""#, "1", "head.sha"),
        (r#""l""#, "[]", "head.repo.owner.login"),
        (r#""r""#, "null", "head.ref"),
        (r#""b""#, "{}", "base.ref"),
        (r#""n""#, "true", "head.repo.full_name"),
    ] {
        let broken = whole.replace(text, replacement);
        let err = parse_pr_meta(&json(&broken)).unwrap_err();
        assert_eq!(err.message(), format!("GitHub API response missing {field}"));
    }
    let err = parse_pr_meta(&json("[]")).unwrap_err();
    assert_eq!(err.message(), "GitHub API response missing head.repo.full_name");
}

#[test]
fn pull_url_format() {
    assert_eq!(
        pull_url("tc39/ecma262", 85),
        "https://api.github.com/repos/tc39/ecma262/pulls/85"
    );
    assert_eq!(
        pull_url("r", i64::MIN),
        "https://api.github.com/repos/r/pulls/-9223372036854775808"
    );
}

#[test]
fn compare_url_percent_encodes_refs() {
    // Ordinary refs pass through unchanged.
    assert_eq!(
        compare_url("tc39/proposal-x", "main", "caiolima", "fix-issue-84"),
        "https://api.github.com/repos/tc39/proposal-x/compare/main...caiolima:fix-issue-84"
    );
    // '#' and space are escaped; '/' in a branch name is preserved.
    assert_eq!(
        compare_url("tc39/x", "main", "user", "fix/issue #84"),
        "https://api.github.com/repos/tc39/x/compare/main...user:fix/issue%20%2384"
    );
}

#[test]
fn compare_url_escapes_all_that_a_url_would_read() {
    assert_eq!(
        compare_url("r", "\u{1}?%\"<>`{}^\\|\u{7f}", "é", ""),
        "https://api.github.com/repos/r/compare/%01%3F%25%22%3C%3E%60%7B%7D%5E%5C%7C%7F...%C3%A9:"
    );
}

#[test]
fn parse_merge_base_extracts_sha() {
    let value = json(
        r#"{
            "merge_base_commit": { "sha": "012cc74e4a8fa27ed017e7579e3087ac1278387b" }
        }"#,
    );
    assert_eq!(
        parse_merge_base(&value).unwrap(),
        "012cc74e4a8fa27ed017e7579e3087ac1278387b"
    );
}

#[test]
fn parse_merge_base_needs_a_sha() {
    let err = parse_merge_base(&json(r#"{"sha":"x"}"#)).unwrap_err();
    assert_eq!(err.message(), "GitHub API response missing merge_base_commit.sha");
}

#[test]
fn build_resolved_maps_metadata_to_urls() {
    let meta = parse_pr_meta(&sample_pr_json()).unwrap();
    let resolved = build_resolved(
        "tc39/proposal-defer-import-eval",
        &meta,
        "012cc74e4a8fa27ed017e7579e3087ac1278387b".to_string(),
    );

    assert_eq!(resolved.head_sha, meta.head_sha);
    assert_eq!(
        resolved.merge_base_sha,
        "012cc74e4a8fa27ed017e7579e3087ac1278387b"
    );
    // Merge base build comes from the base (tc39) repo.
    assert_eq!(
        resolved.base_html_url,
        "https://raw.githubusercontent.com/tc39/proposal-defer-import-eval/012cc74e4a8fa27ed017e7579e3087ac1278387b/index.html"
    );
    // The single PR page is the head (fork) repo's committed index.html.
    assert_eq!(resolved.pages.len(), 1);
    assert_eq!(resolved.pages[0].page_path, "index.html");
    assert_eq!(
        resolved.pages[0].url,
        "https://raw.githubusercontent.com/caiolima/proposal-defer-import-eval/9f07ab45af56350d49a256fb04308b705f17ebe7/index.html"
    );
}

#[test]
fn build_resolved_uses_spec_html_for_ecma262() {
    // ECMA-262 has no committed index.html; both sides fetch the source
    // spec.html instead.
    let meta = PrMeta {
        head_repo: "someuser/ecma262".to_string(),
        head_sha: "aaaa".to_string(),
        head_owner: "someuser".to_string(),
        head_ref: "patch-1".to_string(),
        base_ref: "main".to_string(),
    };
    let resolved = build_resolved("tc39/ecma262", &meta, "bbbb".to_string());

    assert_eq!(
        resolved.base_html_url,
        "https://raw.githubusercontent.com/tc39/ecma262/bbbb/spec.html"
    );
    assert_eq!(resolved.pages[0].page_path, "spec.html");
    assert_eq!(
        resolved.pages[0].url,
        "https://raw.githubusercontent.com/someuser/ecma262/aaaa/spec.html"
    );
}
