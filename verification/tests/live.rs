use webspec_fetch::error::{Failure, FetchError};
use webspec_fetch::live::{
    check_page_status, check_rendered, is_quotable, is_respec_source, live_url, resolve_fetch,
    spec_generator_url, FetchOutcome, LiveStage,
};

// On fetch failure, resolve_fetch falls back to a cached snapshot only when
// fallback is allowed and a snapshot exists; otherwise it propagates the error.
#[test]
fn test_resolve_fetch() {
    // Success -> parse the fresh HTML regardless of cache/fallback state.
    match resolve_fetch::<String>(Ok("<html></html>".to_string()), None, true).unwrap() {
        FetchOutcome::Fresh(html) => assert_eq!(html, "<html></html>"),
        FetchOutcome::ServeCached(_) => panic!("expected Fresh on success"),
    }

    // Failure, fallback allowed, cached snapshot present -> serve the cache.
    match resolve_fetch(Err("offline"), Some(42), true).unwrap() {
        FetchOutcome::ServeCached(id) => assert_eq!(id, 42),
        FetchOutcome::Fresh(_) => panic!("expected ServeCached on failure with cache"),
    }

    // Failure with no cached snapshot -> propagate the error.
    assert!(resolve_fetch(Err("offline"), None, true).is_err());

    // Failure with a cache but fallback disallowed (e.g. --force) -> propagate.
    assert!(resolve_fetch(Err("offline"), Some(42), false).is_err());
}

#[test]
fn a_fresh_page_needs_no_fallback() {
    for (previous, fallback) in [(Some(42), true), (Some(42), false), (None, false)] {
        let outcome = resolve_fetch::<String>(Ok("page".to_string()), previous, fallback);
        assert!(matches!(outcome, Ok(FetchOutcome::Fresh(html)) if html == "page"));
    }
    assert_eq!(resolve_fetch(Err("offline"), None, false).unwrap_err(), "offline");
}

#[test]
fn url_of_the_live_page() {
    assert_eq!(live_url("https://dom.spec.whatwg.org"), "https://dom.spec.whatwg.org/");
    assert_eq!(live_url("https://dom.spec.whatwg.org/"), "https://dom.spec.whatwg.org/");
    assert_eq!(live_url("https://dom.spec.whatwg.org///"), "https://dom.spec.whatwg.org/");
    assert_eq!(live_url("https://a.test/spec.html"), "https://a.test/spec.html");
    assert_eq!(live_url("https://a.test/rfc.txt"), "https://a.test/rfc.txt");
    assert_eq!(live_url("https://a.test/spec.html/"), "https://a.test/spec.html/");
    assert_eq!(live_url(""), "/");
}

#[test]
fn respec_sources_are_recognised() {
    assert!(is_respec_source("<script src=\"https://www.w3.org/Tools/respec/respec-w3c\">"));
    assert!(is_respec_source("src='respec.js'"));
    assert!(is_respec_source("src='/respec/x'"));
    assert!(!is_respec_source("<p>respec</p>"));
    assert!(!is_respec_source(""));
}

#[test]
fn generator_url_carries_the_page() {
    assert_eq!(
        spec_generator_url("https://w3c.github.io/a b/é*-._~"),
        "https://www.w3.org/publications/spec-generator/?type=respec&url=\
         https%3A%2F%2Fw3c.github.io%2Fa+b%2F%C3%A9*-._%7E"
    );
}

#[test]
fn a_rendered_page_is_taken() {
    assert_eq!(check_rendered("<html>".to_string()).unwrap(), "<html>");
    assert_eq!(check_rendered("  x{".to_string()).unwrap(), "  x{");
    assert_eq!(check_rendered(String::new()).unwrap(), "");
    assert_eq!(check_rendered(" \n\t".to_string()).unwrap(), " \n\t");
}

#[test]
fn a_report_is_quoted() {
    let error = check_rendered(" \u{a0}\n{\"error\":\"é\"}".to_string()).unwrap_err();
    assert_eq!(
        error.message(),
        "spec-generator returned error:  \u{a0}\n{\"error\":\"é\"}"
    );
    let long = format!("{{{}", "x".repeat(500));
    match check_rendered(long.clone()).unwrap_err() {
        FetchError::GeneratorRejected { excerpt } => assert_eq!(excerpt, long[..200]),
        other => panic!("unexpected error: {}", other.message()),
    }
    let exact = format!("{{{}", "x".repeat(199));
    match check_rendered(exact.clone()).unwrap_err() {
        FetchError::GeneratorRejected { excerpt } => assert_eq!(excerpt, exact),
        other => panic!("unexpected error: {}", other.message()),
    }
}

#[test]
fn statuses_of_pages() {
    assert!(check_page_status("u", 200, "200 OK").is_ok());
    assert!(check_page_status("u", 299, "299").is_ok());
    assert!(check_page_status("u", 199, "199").is_err());
    assert!(check_page_status("u", 304, "304 Not Modified").is_err());
    assert_eq!(
        check_page_status("https://a.test/", 404, "404 Not Found").unwrap_err().message(),
        "Failed to fetch https://a.test/: HTTP 404 Not Found"
    );
}

#[test]
fn a_plain_page_takes_one_request() {
    let stage = LiveStage::<String>::start("https://a.test");
    assert_eq!(stage.request().unwrap(), "https://a.test/");
    let stage = stage.advance(Ok("<p>".to_string()));
    assert!(stage.request().is_none());
    match stage {
        LiveStage::Finished { page, warning } => {
            assert_eq!(page.unwrap(), "<p>");
            assert!(warning.is_none());
        }
        _ => panic!("not finished"),
    }
}

#[test]
fn a_failed_page_fails_the_fetch() {
    let stage = LiveStage::start("https://a.test/x.html").advance(Err("offline"));
    assert!(matches!(
        stage,
        LiveStage::Finished { page: Err("offline"), warning: None }
    ));
}

fn rendering() -> LiveStage<&'static str> {
    let stage = LiveStage::start("https://a.test").advance(Ok("respec.js".to_string()));
    assert_eq!(
        stage.request().unwrap(),
        "https://www.w3.org/publications/spec-generator/?type=respec&url=https%3A%2F%2Fa.test%2F"
    );
    stage
}

#[test]
fn a_respec_source_is_rendered() {
    match rendering().advance(Ok("<rendered>".to_string())) {
        LiveStage::Finished { page, warning } => {
            assert_eq!(page.unwrap(), "<rendered>");
            assert!(warning.is_none());
        }
        _ => panic!("not finished"),
    }
}

#[test]
fn a_failed_rendering_leaves_the_source() {
    match rendering().advance(Err("offline")) {
        LiveStage::Finished { page, warning } => {
            assert_eq!(page.unwrap(), "respec.js");
            assert!(matches!(warning, Some(Failure::Outside("offline"))));
        }
        _ => panic!("not finished"),
    }
    match rendering().advance(Ok("{}".to_string())) {
        LiveStage::Finished { page, warning } => {
            assert_eq!(page.unwrap(), "respec.js");
            match warning {
                Some(Failure::Detected(e)) => {
                    assert_eq!(e.message(), "spec-generator returned error: {}")
                }
                _ => panic!("no warning"),
            }
        }
        _ => panic!("not finished"),
    }
}

#[test]
fn an_excerpt_must_not_end_inside_a_character() {
    let report = format!("{{{}é{}", "x".repeat(198), "x".repeat(50));
    assert!(!is_quotable(&report));
    assert!(rendering().try_advance(Ok(report.clone())).is_none());
    // The same text is no trouble where it is not a report.
    let page = report.replace('{', "<");
    assert!(is_quotable(&page));
    match rendering().try_advance(Ok(page.clone())) {
        Some(LiveStage::Finished { page: taken, .. }) => assert_eq!(taken.unwrap(), page),
        _ => panic!("not finished"),
    }
    assert!(is_quotable(&format!("{{{}é", "x".repeat(199))));
    assert!(is_quotable("{é"));
    // Before the rendering a page is taken whatever it is.
    let first = LiveStage::<String>::start("https://a.test").try_advance(Ok(report));
    assert!(matches!(first, Some(LiveStage::Finished { page: Ok(_), warning: None })));
}

#[test]
fn white_space_before_a_report_is_skipped() {
    let mut spaces: Vec<u32> = vec![];
    for c in (0..=0x10ffff).filter_map(char::from_u32) {
        if c != '{' && check_rendered(format!("{c}{{")).is_err() {
            spaces.push(c as u32);
        }
    }
    let mut expected: Vec<u32> = (0x09..=0x0d).collect();
    expected.extend([0x20, 0x85, 0xa0, 0x1680]);
    expected.extend(0x2000..=0x200a);
    expected.extend([0x2028, 0x2029, 0x202f, 0x205f, 0x3000]);
    assert_eq!(spaces, expected);
}
