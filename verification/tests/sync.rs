use webspec_fetch::model::{ParsedSection, ParsedSpec, SectionType, UpdateCheckState, INDEX_VERSION};
use webspec_fetch::protocol::{Command, Reply};
use webspec_fetch::sync::{
    cache_is_current, index_is_current, store_update_check, sync_dynamic_spec,
    sync_from_hashed_html, sync_from_html, sync_known_spec, IndexStage, SpecSource, SyncRequest, SyncStage,
};
use webspec_fetch::time::Timestamp;
use webspec_fetch::update::{
    ensure_indexed, ensure_indexed_dynamic, served_snapshot, update_all_specs, update_if_needed,
    updated_snapshot,
};

const HTML: &str = "<h2 id=\"intro\">Intro</h2>";
const HASH: &str = "57ad206934ae85a4bd0c87b44526549fe862bf3d27a473db5bac7bf2dce1ee23";

fn timestamp(text: &str) -> Timestamp {
    Timestamp::parse_from_rfc3339(text).unwrap()
}

fn fixed_now() -> Timestamp {
    timestamp("2026-01-01T00:00:00Z")
}

fn state_with(index_version: Option<&str>, last_checked: &str) -> UpdateCheckState {
    UpdateCheckState {
        last_checked: timestamp(last_checked),
        last_indexed: None,
        content_hash: Some("hash".to_string()),
        index_version: index_version.map(str::to_string),
    }
}

/// One specification, stored in memory, and a network with one page.
struct World {
    now: Timestamp,
    page: Option<String>,
    parses: bool,
    next_id: i64,
    spec_id: Option<i64>,
    snapshot_id: Option<i64>,
    sha: String,
    anchors: Vec<String>,
    check: Option<UpdateCheckState>,
    log: Vec<String>,
}

fn world() -> World {
    World {
        now: fixed_now(),
        page: Some(HTML.to_string()),
        parses: true,
        next_id: 1,
        spec_id: None,
        snapshot_id: None,
        sha: String::new(),
        anchors: vec![],
        check: None,
        log: vec![],
    }
}

impl World {
    fn fresh_id(&mut self) -> i64 {
        self.next_id += 1;
        self.next_id
    }

    fn perform(&mut self, command: Command<'_>) -> Reply<String> {
        let shown = format!("{command:?}");
        let name = shown.split([' ', '{']).next().unwrap();
        self.log.push(name.to_string());
        match command {
            Command::ReadClock => Reply::Clock(self.now),
            Command::InsertOrGetSpec { .. } => match self.spec_id {
                Some(id) => Reply::Id(id),
                None => {
                    let id = self.fresh_id();
                    self.spec_id = Some(id);
                    Reply::Id(id)
                }
            },
            Command::GetSnapshot { .. } => Reply::Found(self.snapshot_id),
            Command::GetUpdateCheck { spec_id } => {
                assert_eq!(Some(spec_id), self.spec_id);
                Reply::UpdateCheck(self.check.clone())
            }
            Command::RecordUpdateCheck { spec_id, checked, indexed, content_hash, index_version } => {
                assert_eq!(Some(spec_id), self.spec_id);
                self.check = Some(UpdateCheckState {
                    last_checked: timestamp(checked),
                    last_indexed: indexed.map(timestamp),
                    content_hash: content_hash.map(str::to_string),
                    index_version: index_version.map(str::to_string),
                });
                Reply::Done
            }
            Command::FetchLive { .. } => match &self.page {
                Some(page) => Reply::Html(page.clone()),
                None => Reply::Failed("offline".to_string()),
            },
            Command::ParseSpec { html, .. } => {
                if !self.parses {
                    return Reply::Failed("unparsable".to_string());
                }
                Reply::Parsed(ParsedSpec {
                    sections: vec![ParsedSection {
                        anchor: html.to_string(),
                        title: None,
                        content_text: None,
                        section_type: SectionType::Heading,
                        parent_anchor: None,
                        prev_anchor: None,
                        next_anchor: None,
                        depth: None,
                    }],
                    references: vec![],
                    idl_definitions: vec![],
                })
            }
            Command::DeleteSpecData { spec_id } => {
                assert_eq!(Some(spec_id), self.spec_id);
                self.spec_id = None;
                self.snapshot_id = None;
                self.anchors.clear();
                self.check = None;
                Reply::Done
            }
            Command::InsertSnapshot { spec_id, sha, commit_date } => {
                assert_eq!(Some(spec_id), self.spec_id);
                assert_eq!(commit_date, self.now.to_rfc3339());
                let id = self.fresh_id();
                self.snapshot_id = Some(id);
                self.sha = sha.to_string();
                Reply::Id(id)
            }
            Command::InsertSections { snapshot_id, sections } => {
                assert_eq!(Some(snapshot_id), self.snapshot_id);
                self.anchors = sections.iter().map(|s| s.anchor.clone()).collect();
                Reply::Done
            }
            Command::InsertReferences { .. } | Command::InsertIdlDefinitions { .. } => Reply::Done,
            other => panic!("unexpected command: {other:?}"),
        }
    }

    fn run(&mut self, begun: (SyncRequest, SyncStage<String>)) -> Result<(i64, bool), String> {
        let (request, mut stage) = begun;
        self.log.clear();
        loop {
            let reply = match stage.command(&request) {
                Some(command) => self.perform(command),
                None => break,
            };
            stage = stage.advance(&request, reply);
        }
        match stage {
            SyncStage::Finished(result) => result,
            other => panic!("stopped at {other:?}"),
        }
    }

    fn sync(&mut self, force: bool) -> Result<(i64, bool), String> {
        self.run(sync_known_spec("TEST", "https://example.test", "test", force))
    }

    fn index(
        &mut self,
        spec_id: i64,
        html: &str,
        previous: Option<i64>,
        state: Option<UpdateCheckState>,
        now: &Timestamp,
    ) -> Result<(i64, bool), String> {
        let source = SpecSource {
            spec_name: "TEST".to_string(),
            base_url: "https://example.test".to_string(),
            provider: "test".to_string(),
        };
        let mut stage = sync_from_html(spec_id, html.to_string(), previous, state, now);
        self.log.clear();
        loop {
            let reply = match stage.command(&source) {
                Some(command) => self.perform(command),
                None => break,
            };
            stage = stage.advance(&source, reply);
        }
        match stage {
            IndexStage::Finished(result) => result,
            other => panic!("stopped at {other:?}"),
        }
    }
}

// The freshness gate must require BOTH a fresh timestamp and a matching
// index version before serving cached data without a re-sync.
#[test]
fn test_cache_is_current() {
    let now = fixed_now();

    // Fresh + current build -> serve cache.
    assert!(cache_is_current(
        &state_with(Some(INDEX_VERSION), "2026-01-01T00:00:00Z"),
        &now
    ));

    // Fresh but produced by an older build (or pre-upgrade NULL) -> re-sync.
    assert!(!cache_is_current(
        &state_with(Some("0.0.0"), "2026-01-01T00:00:00Z"),
        &now
    ));
    assert!(!cache_is_current(
        &state_with(None, "2026-01-01T00:00:00Z"),
        &now
    ));

    // Current build but stale (older than the 24h window) -> re-sync.
    assert!(!cache_is_current(
        &state_with(Some(INDEX_VERSION), "2020-01-01T00:00:00Z"),
        &now
    ));
}

// A version change (bumped INDEX_VERSION) must force a re-parse of an already
// cached spec even when the upstream HTML is byte-for-byte unchanged.
#[test]
fn test_sync_reparses_on_version_bump() {
    let mut world = world();
    let spec_id = world.fresh_id();
    world.spec_id = Some(spec_id);
    let html = "<h2 id=\"intro\">Intro</h2>".to_string();
    let now = fixed_now();

    // First index: no previous snapshot -> parse.
    let (snap1, updated1) = world.index(spec_id, &html, None, None, &now).unwrap();
    assert!(updated1, "first index should parse");

    // Second: identical content, state stamped with the current index
    // version -> skip re-parsing.
    let spec_id = world.spec_id.unwrap();
    let state = world.check.clone();
    assert_eq!(
        state.as_ref().and_then(|s| s.index_version.as_deref()),
        Some(INDEX_VERSION)
    );
    let (snap2, updated2) = world.index(spec_id, &html, Some(snap1), state, &now).unwrap();
    assert!(!updated2, "unchanged content + current parser should skip");
    assert_eq!(snap2, snap1);

    // Third: identical content, but the stored index was produced by an older
    // build version -> must re-parse.
    let mut stale = world.check.clone().unwrap();
    stale.index_version = Some("0.0.0".to_string());
    let (_snap3, updated3) = world.index(spec_id, &html, Some(snap2), Some(stale), &now).unwrap();
    assert!(
        updated3,
        "index version change should force re-parse despite unchanged content"
    );
}

#[test]
fn versions_of_an_index() {
    assert!(index_is_current(&state_with(Some(INDEX_VERSION), "2020-01-01T00:00:00Z")));
    assert!(!index_is_current(&state_with(Some("0.0.0"), "2020-01-01T00:00:00Z")));
    assert!(!index_is_current(&state_with(None, "2020-01-01T00:00:00Z")));
}

#[test]
fn what_is_recorded_of_a_check() {
    let now = fixed_now();
    let row = store_update_check(5, &now, &None, Some("h".to_string()));
    assert_eq!(row.spec_id, 5);
    assert_eq!(row.checked, "2026-01-01T00:00:00+00:00");
    assert_eq!(row.indexed, None);
    assert_eq!(row.content_hash.as_deref(), Some("h"));
    assert_eq!(row.index_version.as_deref(), Some(INDEX_VERSION));
    let row = store_update_check(5, &now, &Some(timestamp("2025-12-31T00:00:00Z")), None);
    assert_eq!(row.indexed.as_deref(), Some("2025-12-31T00:00:00+00:00"));
    assert_eq!(row.content_hash, None);
}

#[test]
fn requests_name_the_specification() {
    let (request, stage) = sync_known_spec::<String>("DOM", "https://dom.test", "whatwg", true);
    assert_eq!(request.source.spec_name, "DOM");
    assert_eq!(request.source.base_url, "https://dom.test");
    assert_eq!(request.source.provider, "whatwg");
    assert!(request.force);
    assert!(matches!(stage, SyncStage::Register));
    let (request, stage) = sync_dynamic_spec::<String>("X", "https://x.test", false);
    assert_eq!(request.source.spec_name, "X");
    assert_eq!(request.source.base_url, "https://x.test");
    assert_eq!(request.source.provider, "dynamic");
    assert!(!request.force);
    assert!(matches!(stage, SyncStage::Register));
}

#[test]
fn a_new_specification_is_indexed() {
    let mut world = world();
    let (snapshot_id, updated) = world.sync(false).unwrap();
    assert!(updated);
    assert_eq!(world.snapshot_id, Some(snapshot_id));
    assert_eq!(world.sha, format!("hash:{HASH}"));
    assert_eq!(world.anchors, [HTML]);
    let check = world.check.clone().unwrap();
    assert_eq!(check.last_checked, fixed_now());
    assert_eq!(check.last_indexed, Some(fixed_now()));
    assert_eq!(check.content_hash.as_deref(), Some(HASH));
    assert_eq!(check.index_version.as_deref(), Some(INDEX_VERSION));
    assert_eq!(
        world.log,
        [
            "InsertOrGetSpec", "GetSnapshot", "GetUpdateCheck", "ReadClock", "FetchLive",
            "ParseSpec", "DeleteSpecData", "InsertOrGetSpec", "InsertSnapshot", "InsertSections",
            "InsertReferences", "InsertIdlDefinitions", "RecordUpdateCheck",
        ]
    );
}

#[test]
fn a_recorded_check_serves_the_cache_for_a_day() {
    let mut world = world();
    let (snapshot_id, _) = world.sync(false).unwrap();
    world.page = None;
    world.now = timestamp("2026-01-01T23:59:59Z");
    assert_eq!(world.sync(false), Ok((snapshot_id, false)));
    assert_eq!(world.log, ["InsertOrGetSpec", "GetSnapshot", "GetUpdateCheck", "ReadClock"]);
}

#[test]
fn an_unchanged_page_is_recognised_after_a_day() {
    let mut world = world();
    let (snapshot_id, _) = world.sync(false).unwrap();
    world.now = timestamp("2026-01-02T00:00:00Z");
    assert_eq!(world.sync(false), Ok((snapshot_id, false)));
    assert_eq!(world.log[4..], ["FetchLive", "RecordUpdateCheck"]);
    let check = world.check.clone().unwrap();
    assert_eq!(check.last_checked, world.now);
    assert_eq!(check.last_indexed, Some(fixed_now()));
}

#[test]
fn a_changed_page_is_indexed_anew() {
    let mut world = world();
    let (first, _) = world.sync(false).unwrap();
    world.now = timestamp("2026-01-03T00:00:00Z");
    world.page = Some("<p>".to_string());
    let (second, updated) = world.sync(false).unwrap();
    assert!(updated);
    assert_ne!(first, second);
    assert_eq!(world.anchors, ["<p>"]);
}

#[test]
fn a_new_index_version_is_indexed_within_the_day() {
    let mut world = world();
    let (first, _) = world.sync(false).unwrap();
    world.check.as_mut().unwrap().index_version = None;
    let (second, updated) = world.sync(false).unwrap();
    assert!(updated);
    assert_ne!(first, second);
}

#[test]
fn an_unreachable_page_leaves_the_cache() {
    let mut world = world();
    let (snapshot_id, _) = world.sync(false).unwrap();
    world.now = timestamp("2026-02-01T00:00:00Z");
    world.page = None;
    assert_eq!(world.sync(false), Ok((snapshot_id, false)));
    assert_eq!(world.anchors, [HTML]);
    // The check is not recorded: the next sync tries again.
    assert_eq!(world.check.clone().unwrap().last_checked, fixed_now());
}

#[test]
fn a_forced_sync_fetches_and_fails() {
    let mut world = world();
    let (snapshot_id, _) = world.sync(false).unwrap();
    assert_eq!(world.sync(true), Ok((snapshot_id, false)));
    assert_eq!(world.log[4..], ["FetchLive", "RecordUpdateCheck"]);
    world.page = None;
    assert_eq!(world.sync(true), Err("offline".to_string()));
    assert_eq!(world.snapshot_id, Some(snapshot_id));
}

#[test]
fn without_a_cache_a_failed_fetch_fails() {
    let mut world = world();
    world.page = None;
    assert_eq!(world.sync(false), Err("offline".to_string()));
}

#[test]
fn an_unparsable_page_leaves_the_index() {
    let mut world = world();
    let (snapshot_id, _) = world.sync(false).unwrap();
    world.page = Some("<p>".to_string());
    world.parses = false;
    assert_eq!(world.sync(true), Err("unparsable".to_string()));
    assert_eq!(world.snapshot_id, Some(snapshot_id));
    assert_eq!(world.anchors, [HTML]);
    assert_eq!(world.log.last().unwrap(), "ParseSpec");
}

#[test]
fn what_callers_learn_of_a_sync() {
    assert_eq!(served_snapshot::<String>(Ok((4, true))), Ok(4));
    assert_eq!(served_snapshot::<String>(Ok((4, false))), Ok(4));
    assert_eq!(served_snapshot(Err("offline")), Err("offline"));
    assert_eq!(updated_snapshot::<String>(Ok((4, true))), Ok(Some(4)));
    assert_eq!(updated_snapshot::<String>(Ok((4, false))), Ok(None));
    assert_eq!(updated_snapshot(Err("offline")), Err("offline"));
}

#[test]
fn ensuring_is_never_forced() {
    let (request, stage) = ensure_indexed::<String>("DOM", "https://dom.test", "whatwg");
    assert_eq!(request.source.spec_name, "DOM");
    assert_eq!(request.source.base_url, "https://dom.test");
    assert_eq!(request.source.provider, "whatwg");
    assert!(!request.force);
    assert!(matches!(stage, SyncStage::Register));
    let (request, _) = ensure_indexed_dynamic::<String>("X", "https://x.test");
    assert_eq!(request.source.spec_name, "X");
    assert_eq!(request.source.base_url, "https://x.test");
    assert_eq!(request.source.provider, "dynamic");
    assert!(!request.force);
    for force in [true, false] {
        let (request, _) = update_if_needed::<String>("DOM", "https://dom.test", "whatwg", force);
        assert_eq!(request.source.provider, "whatwg");
        assert_eq!(request.force, force);
    }
    let mut world = world();
    let begun = ensure_indexed("TEST", "https://example.test", "test");
    let (snapshot_id, _) = world.run(begun).unwrap();
    world.page = None;
    let begun = ensure_indexed("TEST", "https://example.test", "test");
    assert_eq!(world.run(begun), Ok((snapshot_id, false)));
}

#[test]
fn all_specifications_are_updated_in_turn() {
    let spec = |name: &str| {
        (name.to_string(), format!("https://{name}.test"), "test".to_string())
    };
    let mut update = update_all_specs::<String>(vec![spec("a"), spec("b"), spec("c")], true);
    let mut asked: Vec<String> = vec![];
    let mut outcomes = vec![Ok((1, true)), Err("offline".to_string()), Ok((3, false))].into_iter();
    while let Some((request, stage)) = update.next_sync() {
        assert!(request.force);
        assert_eq!(request.source.base_url, format!("https://{}.test", request.source.spec_name));
        assert_eq!(request.source.provider, "test");
        assert!(matches!(stage, SyncStage::Register));
        asked.push(request.source.spec_name);
        update.record(outcomes.next().unwrap());
    }
    assert_eq!(asked, ["a", "b", "c"]);
    assert_eq!(
        update.results,
        [
            ("a".to_string(), Ok(Some(1))),
            ("b".to_string(), Err("offline".to_string())),
            ("c".to_string(), Ok(None)),
        ]
    );
    assert!(update_all_specs::<String>(vec![], false).next_sync().is_none());
}

#[test]
fn the_hash_decides_what_is_indexed() {
    let now = fixed_now();
    let begin = |hash: &str, previous: Option<i64>, version: Option<&str>| {
        let state = Some(state_with(version, "2025-12-31T00:00:00Z"));
        sync_from_hashed_html::<String>(1, HTML.to_string(), hash.to_string(), previous, state, &now)
    };
    match begin("hash", Some(7), Some(INDEX_VERSION)) {
        IndexStage::Unchanged { snapshot_id, row } => {
            assert_eq!(snapshot_id, 7);
            assert_eq!(row.spec_id, 1);
            assert_eq!(row.content_hash.as_deref(), Some("hash"));
            assert_eq!(row.checked, "2026-01-01T00:00:00+00:00");
        }
        other => panic!("unexpected stage: {other:?}"),
    }
    for stage in [
        begin("other", Some(7), Some(INDEX_VERSION)),
        begin("hash", None, Some(INDEX_VERSION)),
        begin("hash", Some(7), Some("0.0.0")),
        begin("hash", Some(7), None),
    ] {
        assert!(matches!(stage, IndexStage::Parse { spec_id: 1, html, .. } if html == HTML));
    }
}
