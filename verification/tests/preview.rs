use webspec_fetch::error::{Failure, FetchError};
use webspec_fetch::model::{ParsedSection, ParsedSpec, SectionType, INDEX_VERSION};
use webspec_fetch::pr::{
    is_pr_snapshot_valid, pr_snapshot_key, resolver_for, snapshot_index_is_current, PrPage,
    PrProvider, ResolvedPr,
};
use webspec_fetch::preview::{ensure_pr_indexed, PrStage};
use webspec_fetch::protocol::Reply;
use webspec_fetch::time::Timestamp;

type Read<T> = Result<T, String>;

fn current() -> Read<Option<String>> {
    Ok(Some(INDEX_VERSION.to_string()))
}

#[test]
fn test_empty_pr_snapshot_not_treated_as_cached() {
    // The snapshot pr:99:deadbeef, stored by this build and without sections.
    assert_eq!(pr_snapshot_key(99, "deadbeef"), "pr:99:deadbeef");
    assert!(!is_pr_snapshot_valid(&current(), &Ok(0)));
}

#[test]
fn test_pr_snapshot_stale_parser_not_valid() {
    // One section, so that the emptiness check is satisfied and the index
    // version is the only thing under test.
    let sections: Read<i64> = Ok(vec![section("sec-a")].len() as i64);

    // Freshly inserted -> stamped with the current build -> valid.
    assert!(is_pr_snapshot_valid(&current(), &sections));

    // Produced by an older build -> stale -> not valid.
    assert!(!is_pr_snapshot_valid(&Ok(Some("0.0.0".to_string())), &sections));

    // Pre-upgrade rows (NULL index_version) -> not valid either.
    assert!(!is_pr_snapshot_valid(&Ok(None), &sections));
}

#[test]
fn snapshots_that_cannot_be_read_are_not_valid() {
    assert!(!is_pr_snapshot_valid(&Err("integer".to_string()), &Ok(1)));
    assert!(!is_pr_snapshot_valid(&current(), &Err("locked".to_string())));
    assert!(!is_pr_snapshot_valid(&current(), &Ok(-1)));
    assert!(snapshot_index_is_current(&current()));
    assert!(!snapshot_index_is_current(&Err("integer")));
}

#[test]
fn only_whatwg_has_previews() {
    assert!(matches!(resolver_for("whatwg"), Ok(PrProvider::Whatwg)));
    for provider in ["tc39", "WHATWG", "", "whatwg "] {
        assert_eq!(
            resolver_for(provider).unwrap_err().message(),
            format!("PR previews are not supported for provider '{provider}' — only WHATWG specs")
        );
    }
}

#[test]
fn keys_of_previews() {
    assert_eq!(pr_snapshot_key(-1, ""), "pr:-1:");
    assert_ne!(pr_snapshot_key(1, "2:a"), pr_snapshot_key(12, "a"));
    assert!(pr_snapshot_key(7, "abc").ends_with("abc"));
}

fn section(anchor: &str) -> ParsedSection {
    ParsedSection {
        anchor: anchor.to_string(),
        title: Some("A".to_string()),
        content_text: None,
        section_type: SectionType::Heading,
        parent_anchor: None,
        prev_anchor: None,
        next_anchor: None,
        depth: Some(2),
    }
}

fn parsed(anchors: &[&str]) -> Reply<String> {
    Reply::Parsed(ParsedSpec {
        sections: anchors.iter().map(|a| section(a)).collect(),
        references: vec![],
        idl_definitions: vec![],
    })
}

fn page(path: &str) -> PrPage {
    PrPage {
        page_path: path.to_string(),
        url: format!("https://whatpr.test/{path}"),
        diff_url: None,
    }
}

fn resolved(pages: Vec<PrPage>) -> Reply<String> {
    Reply::Resolved(ResolvedPr {
        head_sha: "deadbeef".to_string(),
        merge_base_sha: "basesha".to_string(),
        base_html_url: "https://base.test/".to_string(),
        pages,
    })
}

fn text(text: &str) -> Reply<String> {
    Reply::Text(text.to_string())
}

fn failed() -> Reply<String> {
    Reply::Failed("failed".to_string())
}

fn clock(text: &str) -> Reply<String> {
    Reply::Clock(Timestamp::parse_from_rfc3339(text).unwrap())
}

fn version(text: &str) -> Reply<String> {
    Reply::Version(Some(text.to_string()))
}

/// Answers the commands of a run in turn. Gives the commands and the stage
/// after the last answer.
fn run(provider: &str, force: bool, replies: Vec<Reply<String>>) -> (Vec<String>, PrStage<String>) {
    let (request, mut stage) =
        ensure_pr_indexed("HTML", "https://html.spec.whatwg.org", provider, 99, force);
    let mut commands: Vec<String> = vec![];
    for reply in replies {
        commands.push(format!("{:?}", stage.command(&request).unwrap()));
        stage = stage.advance(&request, reply);
    }
    if let Some(command) = stage.command(&request) {
        commands.push(format!("{command:?}"));
    }
    (commands, stage)
}

fn names(commands: &[String]) -> Vec<&str> {
    commands.iter().map(|c| c.split([' ', '{']).next().unwrap()).collect()
}

fn cached() -> Reply<String> {
    Reply::PrSnapshot(Some((11, "oldbase".to_string())))
}

/// The answers that lead to the lookup of the merge base on the fast path.
fn fresh() -> Vec<Reply<String>> {
    vec![
        Reply::Id(1),
        cached(),
        version(INDEX_VERSION),
        Reply::Count(3),
        text("2026-01-01T00:00:00Z"),
        clock("2026-01-01T23:59:59Z"),
    ]
}

#[test]
fn a_fresh_preview_is_served_at_once() {
    let mut replies = fresh();
    replies.push(Reply::Found(Some(12)));
    let (commands, stage) = run("whatwg", false, replies);
    assert!(matches!(stage, PrStage::Finished(Ok((11, 12)))));
    assert_eq!(
        names(&commands),
        [
            "InsertOrGetSpec", "GetPrSnapshot", "ReadIndexVersion", "CountSections",
            "ReadIndexedAt", "ReadClock", "GetCommitSnapshot",
        ]
    );
    assert_eq!(commands[1], "GetPrSnapshot { spec_name: \"HTML\", pr_number: 99 }");
    assert_eq!(commands[6], "GetCommitSnapshot { spec_id: 1, sha: \"oldbase\" }");
}

#[test]
fn every_doubt_on_the_fast_path_leads_to_the_provider() {
    let doubts = [
        (1, Reply::PrSnapshot(None)),
        (2, version("0.0.0")),
        (2, Reply::Version(None)),
        (2, failed()),
        (3, Reply::Count(0)),
        (3, failed()),
        (4, text("yesterday")),
        (5, clock("2026-01-02T00:00:00Z")),
        (6, Reply::Found(None)),
    ];
    for (n, doubt) in doubts {
        let mut replies: Vec<Reply<String>> = fresh().into_iter().take(n).collect();
        replies.push(doubt);
        let (commands, stage) = run("whatwg", false, replies);
        assert!(matches!(stage, PrStage::Resolve { .. }));
        assert_eq!(
            commands.last().unwrap(),
            "Resolve { resolver: Whatwg, spec_name: \"HTML\", \
             base_url: \"https://html.spec.whatwg.org\", pr_number: 99 }"
        );
    }
}

#[test]
fn a_forced_run_resolves_first() {
    let (commands, _) = run("whatwg", true, vec![Reply::Id(1)]);
    assert_eq!(names(&commands), ["InsertOrGetSpec", "Resolve"]);
}

#[test]
fn other_providers_are_refused() {
    let (commands, stage) = run("tc39", true, vec![Reply::Id(1)]);
    assert_eq!(names(&commands), ["InsertOrGetSpec"]);
    match stage {
        PrStage::Finished(Err(Failure::Detected(FetchError::UnsupportedProvider { provider }))) => {
            assert_eq!(provider, "tc39")
        }
        other => panic!("unexpected stage: {other:?}"),
    }
    // A fresh snapshot is served all the same.
    let mut replies = fresh();
    replies.push(Reply::Found(Some(12)));
    let (_, stage) = run("tc39", false, replies);
    assert!(matches!(stage, PrStage::Finished(Ok((11, 12)))));
}

#[test]
fn an_unmoved_head_keeps_its_snapshot() {
    let (commands, stage) = run(
        "whatwg",
        true,
        vec![
            Reply::Id(1),
            resolved(vec![page("index.html")]),
            cached(),
            text("pr:99:deadbeef"),
            version(INDEX_VERSION),
            Reply::Count(1),
            Reply::Found(Some(12)),
        ],
    );
    assert!(matches!(stage, PrStage::Finished(Ok((11, 12)))));
    assert_eq!(
        names(&commands)[2..],
        ["GetPrSnapshot", "ReadSha", "ReadIndexVersion", "CountSections", "GetCommitSnapshot"]
    );
}

#[test]
fn a_stale_snapshot_is_dropped() {
    let known = || {
        vec![
            text("pr:99:deadbeef"),
            version(INDEX_VERSION),
            Reply::Count(1),
            Reply::Found(Some(12)),
        ]
    };
    let doubts = [
        (0, text("pr:99:cafe")),
        (1, version("0.0.0")),
        (1, failed()),
        (2, Reply::Count(0)),
        (2, failed()),
        (3, Reply::Found(None)),
    ];
    for (n, doubt) in doubts {
        let mut replies = vec![Reply::Id(1), resolved(vec![]), cached()];
        replies.extend(known().into_iter().take(n));
        replies.push(doubt);
        replies.push(Reply::Done);
        let (commands, _) = run("whatwg", true, replies);
        assert_eq!(commands[commands.len() - 2], "DeletePrData { spec_id: 1, pr_number: 99 }");
        assert_eq!(
            commands[commands.len() - 1],
            "GetCommitSnapshot { spec_id: 1, sha: \"basesha\" }"
        );
    }
}

#[test]
fn base_and_pages_are_fetched_and_stored() {
    let (commands, stage) = run(
        "whatwg",
        false,
        vec![
            Reply::Id(1),
            Reply::PrSnapshot(None),
            resolved(vec![page("index.html"), page("dom.html")]),
            Reply::PrSnapshot(None),
            Reply::Found(None),
            Reply::Html("base".to_string()),
            parsed(&["base"]),
            clock("2026-01-01T00:00:00Z"),
            Reply::Id(20),
            Reply::Done,
            Reply::Done,
            Reply::Done,
            Reply::Html("one".to_string()),
            parsed(&["a", "b"]),
            Reply::Html("two".to_string()),
            parsed(&["b", "c"]),
            clock("2026-01-01T00:00:01Z"),
            Reply::Id(21),
            Reply::Done,
            Reply::Done,
            Reply::Done,
        ],
    );
    assert!(matches!(stage, PrStage::Finished(Ok((21, 20)))));
    assert_eq!(
        names(&commands)[4..],
        [
            "GetCommitSnapshot", "FetchPage", "ParseSpec", "ReadClock", "InsertSnapshot",
            "InsertSections", "InsertReferences", "InsertIdlDefinitions", "FetchPage", "ParseSpec",
            "FetchPage", "ParseSpec", "ReadClock", "InsertPrSnapshot", "InsertSections",
            "InsertReferences", "InsertIdlDefinitions",
        ]
    );
    assert_eq!(commands[5], "FetchPage { url: \"https://base.test/\" }");
    assert_eq!(
        commands[8],
        "InsertSnapshot { spec_id: 1, sha: \"basesha\", \
         commit_date: \"2026-01-01T00:00:00+00:00\" }"
    );
    assert_eq!(commands[12], "FetchPage { url: \"https://whatpr.test/index.html\" }");
    assert_eq!(
        commands[13],
        "ParseSpec { html: \"one\", spec_name: \"HTML\", \
         base_url: \"https://html.spec.whatwg.org\" }"
    );
    assert_eq!(commands[14], "FetchPage { url: \"https://whatpr.test/dom.html\" }");
    assert_eq!(
        commands[17],
        "InsertPrSnapshot { spec_id: 1, sha: \"pr:99:deadbeef\", \
         commit_date: \"2026-01-01T00:00:01+00:00\", pr_number: 99, \
         merge_base_sha: \"basesha\", page_paths: [\"index.html\", \"dom.html\"] }"
    );
    assert!(commands[18].starts_with("InsertSections { snapshot_id: 21"));
    assert_eq!(commands[18].matches("anchor: \"b\"").count(), 1);
    assert_eq!(commands[18].matches(" anchor: ").count(), 3);
}

#[test]
fn a_current_base_is_used_again() {
    let (commands, stage) = run(
        "whatwg",
        true,
        vec![
            Reply::Id(1),
            resolved(vec![]),
            Reply::PrSnapshot(None),
            Reply::Found(Some(30)),
            version(INDEX_VERSION),
            clock("2026-01-01T00:00:00Z"),
            Reply::Id(31),
            Reply::Done,
            Reply::Done,
            Reply::Done,
        ],
    );
    assert!(matches!(stage, PrStage::Finished(Ok((31, 30)))));
    assert_eq!(names(&commands)[3..7], ["GetCommitSnapshot", "ReadIndexVersion", "ReadClock", "InsertPrSnapshot"]);
}

#[test]
fn a_stale_base_is_deleted_once_its_page_is_parsed() {
    let begin = || {
        vec![
            Reply::Id(1),
            resolved(vec![]),
            Reply::PrSnapshot(None),
            Reply::Found(Some(30)),
            version("0.0.0"),
        ]
    };
    let mut replies = begin();
    replies.push(Reply::Html("base".to_string()));
    replies.push(parsed(&["base"]));
    replies.push(Reply::Done);
    let (commands, _) = run("whatwg", true, replies);
    assert_eq!(
        names(&commands)[3..],
        [
            "GetCommitSnapshot", "ReadIndexVersion", "FetchPage", "ParseSpec",
            "DeleteCommitSnapshot", "ReadClock",
        ]
    );
    assert_eq!(commands[7], "DeleteCommitSnapshot { snapshot_id: 30 }");

    // A failed fetch, or a failed parse, leaves it.
    let mut replies = begin();
    replies.push(failed());
    let (commands, stage) = run("whatwg", true, replies);
    assert!(!names(&commands).contains(&"DeleteCommitSnapshot"));
    assert!(matches!(stage, PrStage::Finished(Err(Failure::Outside(e))) if e == "failed"));
    let mut replies = begin();
    replies.push(Reply::Html("base".to_string()));
    replies.push(failed());
    let (commands, stage) = run("whatwg", true, replies);
    assert!(!names(&commands).contains(&"DeleteCommitSnapshot"));
    assert!(matches!(stage, PrStage::Finished(Err(Failure::Outside(_)))));
}

#[test]
fn failures_end_a_run() {
    for n in [0, 1, 4, 6] {
        let mut replies: Vec<Reply<String>> = fresh().into_iter().take(n).collect();
        replies.push(failed());
        let (_, stage) = run("whatwg", false, replies);
        assert!(matches!(stage, PrStage::Finished(Err(Failure::Outside(e))) if e == "failed"));
    }
    let (_, stage) = run("whatwg", true, vec![Reply::Id(1), failed()]);
    assert!(matches!(stage, PrStage::Finished(Err(Failure::Outside(_)))));
}

#[test]
fn a_key_that_ends_with_the_head_is_kept() {
    // The stored key holds the full SHA, the provider gives a short one.
    let (_, stage) = run(
        "whatwg",
        true,
        vec![Reply::Id(1), resolved(vec![]), cached(), text("pr:99:0123deadbeef")],
    );
    assert!(matches!(stage, PrStage::KnownVersion { .. }));
}

#[test]
fn a_failed_resolution_changes_nothing() {
    let mut replies = fresh();
    replies.push(Reply::Found(None));
    replies.push(failed());
    let (commands, stage) = run("whatwg", false, replies);
    assert!(matches!(stage, PrStage::Finished(Err(Failure::Outside(e))) if e == "failed"));
    assert_eq!(names(&commands).last(), Some(&"Resolve"));
    assert!(!names(&commands).iter().any(|name| name.starts_with("Delete")));
    assert_eq!(names(&commands).iter().filter(|name| name.starts_with("Insert")).count(), 1);
}

#[test]
fn a_preview_indexed_anew_is_served_again() {
    let (commands, stage) = run(
        "whatwg",
        true,
        vec![
            Reply::Id(1),
            resolved(vec![page("index.html")]),
            Reply::PrSnapshot(None),
            Reply::Found(Some(30)),
            version(INDEX_VERSION),
            Reply::Html("one".to_string()),
            parsed(&["a", "b"]),
            clock("2026-01-01T00:00:00Z"),
            Reply::Id(31),
            Reply::Done,
            Reply::Done,
            Reply::Done,
        ],
    );
    assert!(matches!(stage, PrStage::Finished(Ok((31, 30)))));
    assert!(commands[8].contains("merge_base_sha: \"basesha\""));
    let (commands, stage) = run(
        "whatwg",
        false,
        vec![
            Reply::Id(1),
            Reply::PrSnapshot(Some((31, "basesha".to_string()))),
            version(INDEX_VERSION),
            Reply::Count(2),
            text("2026-01-01T00:00:00+00:00"),
            clock("2026-01-01T12:00:00Z"),
            Reply::Found(Some(30)),
        ],
    );
    assert!(matches!(stage, PrStage::Finished(Ok((31, 30)))));
    assert_eq!(commands[6], "GetCommitSnapshot { spec_id: 1, sha: \"basesha\" }");
}
