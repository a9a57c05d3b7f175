//! Keeping the index of a specification in step with its live page.

use crate::digest::{content_hash, hash_html};
use crate::live::{resolve_fetch, FetchOutcome};
use crate::model::{ParsedSpec, UpdateCheckState, INDEX_VERSION};
use crate::protocol::{answers, optional_text, Ask, Command, Reply};
use crate::text::same_text;
use crate::time::{
    fresh, in_four_digit_year, instant_of, is_fresh, rfc3339, rfc3339_text, Instant, Timestamp,
};
use vstd::prelude::*;
use vstd::string::*;

verus! {

/// The provider of specifications that are given by their URL alone.
pub const DYNAMIC_PROVIDER: &'static str = "dynamic";

/// `version` is the index version of this build. Indexes from before versions
/// were recorded have none.
pub open spec fn is_current_version(version: Option<String>) -> bool {
    version matches Some(v) && v@ == INDEX_VERSION@
}

pub(crate) fn check_version(version: &Option<String>) -> (current: bool)
    ensures
        current == is_current_version(*version),
{
    match version {
        Some(v) => same_text(v.as_str(), INDEX_VERSION),
        None => false,
    }
}

/// Whether the cached index was produced by this build. Another index version
/// forces a new parse, even of an unchanged page.
pub fn index_is_current(state: &UpdateCheckState) -> (current: bool)
    ensures
        current == is_current_version(state.index_version),
{
    check_version(&state.index_version)
}

/// A cached index counts while its check is fresh and this build produced it.
pub open spec fn cache_current(state: UpdateCheckState, now: Instant) -> bool {
    fresh(state.last_checked@, now) && is_current_version(state.index_version)
}

/// Whether a cached specification can be served without a new check.
pub fn cache_is_current(state: &UpdateCheckState, now: &Timestamp) -> (current: bool)
    ensures
        current == cache_current(*state, now@),
{
    is_fresh(&state.last_checked, now) && index_is_current(state)
}

/// What identifies a specification.
#[derive(Debug, Clone)]
pub struct SpecSource {
    pub spec_name: String,
    pub base_url: String,
    pub provider: String,
}

/// What is recorded of a check.
#[derive(Debug, Clone)]
pub struct CheckRow {
    pub spec_id: i64,
    pub checked: String,
    pub indexed: Option<String>,
    pub content_hash: Option<String>,
    pub index_version: Option<String>,
}

/// A text that may be missing, by its characters.
pub open spec fn optional_string(text: Option<String>) -> Option<Seq<char>> {
    match text {
        Some(t) => Some(t@),
        None => None,
    }
}

fn as_optional_str(text: &Option<String>) -> (borrowed: Option<&str>)
    ensures
        optional_text(borrowed) == optional_string(*text),
{
    match text {
        Some(t) => Some(t.as_str()),
        None => None,
    }
}

impl CheckRow {
    /// The command that stores this row.
    pub open spec fn ask(self) -> Ask {
        Ask::RecordUpdateCheck {
            spec_id: self.spec_id,
            checked: self.checked@,
            indexed: optional_string(self.indexed),
            content_hash: optional_string(self.content_hash),
            index_version: optional_string(self.index_version),
        }
    }

    fn command(&self) -> (command: Command<'_>)
        ensures
            command@ == self.ask(),
    {
        Command::RecordUpdateCheck {
            spec_id: self.spec_id,
            checked: self.checked.as_str(),
            indexed: as_optional_str(&self.indexed),
            content_hash: as_optional_str(&self.content_hash),
            index_version: as_optional_str(&self.index_version),
        }
    }
}

/// `row` records a check of `spec_id` at `now`, which can be read back, with the
/// index version of this build.
pub open spec fn records(
    row: CheckRow,
    spec_id: i64,
    now: Timestamp,
    last_indexed: Option<Timestamp>,
    hash: Option<Seq<char>>,
) -> bool {
    &&& row.spec_id == spec_id
    &&& row.checked@ == rfc3339_text(now@)
    &&& in_four_digit_year(now@.seconds) ==> instant_of(row.checked@) == Some(now@)
    &&& optional_string(row.indexed) == match last_indexed {
        Some(at) => Some(rfc3339_text(at@)),
        None => None,
    }
    &&& optional_string(row.content_hash) == hash
    &&& optional_string(row.index_version) == Some(INDEX_VERSION@)
}

/// What to record of a check of `spec_id` at `now`.
pub fn store_update_check(
    spec_id: i64,
    now: &Timestamp,
    last_indexed: &Option<Timestamp>,
    content_hash: Option<String>,
) -> (row: CheckRow)
    ensures
        records(row, spec_id, *now, *last_indexed, optional_string(content_hash)),
{
    CheckRow {
        spec_id,
        checked: now.to_rfc3339(),
        indexed: match last_indexed {
            Some(at) => Some(at.to_rfc3339()),
            None => None,
        },
        content_hash,
        index_version: Some(INDEX_VERSION.to_owned()),
    }
}

/// What a new snapshot is made from.
#[derive(Debug)]
pub struct NewIndex {
    pub hash: String,
    pub now: Timestamp,
    pub parsed: ParsedSpec,
}

/// How indexing a fresh page stands.
#[derive(Debug)]
pub enum IndexStage<E> {
    /// The page is unchanged and this build indexed it: only the check is
    /// recorded.
    Unchanged { snapshot_id: i64, row: CheckRow },
    /// The page is being parsed.
    Parse { spec_id: i64, html: String, hash: String, now: Timestamp },
    /// What was stored is being deleted.
    Clear { spec_id: i64, index: NewIndex },
    /// The specification is being stored again.
    Register { index: NewIndex },
    /// The snapshot is being inserted.
    Insert { spec_id: i64, sha: String, commit_date: String, index: NewIndex },
    /// The sections of the snapshot are being inserted.
    Sections { spec_id: i64, snapshot_id: i64, index: NewIndex },
    /// The references of the snapshot are being inserted.
    References { spec_id: i64, snapshot_id: i64, index: NewIndex },
    /// The interface definitions of the snapshot are being inserted.
    IdlDefinitions { spec_id: i64, snapshot_id: i64, index: NewIndex },
    /// The check is being recorded.
    Record { snapshot_id: i64, row: CheckRow },
    /// Over, with the snapshot and whether it is a new one.
    Finished(Result<(i64, bool), E>),
}

/// The hash and the index version are those of the last check.
pub open spec fn unchanged_hash(
    hash: Seq<char>,
    previous_snapshot_id: Option<i64>,
    state: Option<UpdateCheckState>,
) -> bool {
    &&& previous_snapshot_id is Some
    &&& state matches Some(s)
    &&& optional_string(s.content_hash) == Some(hash)
    &&& is_current_version(s.index_version)
}

/// The page and the index version are those of the last check.
pub open spec fn unchanged(
    html: Seq<char>,
    previous_snapshot_id: Option<i64>,
    state: Option<UpdateCheckState>,
) -> bool {
    unchanged_hash(content_hash(html), previous_snapshot_id, state)
}

/// The stage at which indexing the page `html` begins, which has the hash
/// `hash`.
pub open spec fn hashed_start<E>(
    spec_id: i64,
    html: String,
    hash: Seq<char>,
    previous_snapshot_id: Option<i64>,
    state: Option<UpdateCheckState>,
    now: Timestamp,
    stage: IndexStage<E>,
) -> bool {
    if unchanged_hash(hash, previous_snapshot_id, state) {
        &&& stage matches IndexStage::Unchanged { snapshot_id, row }
        &&& previous_snapshot_id == Some(snapshot_id)
        &&& records(row, spec_id, now, state->0.last_indexed, Some(hash))
    } else {
        &&& stage matches IndexStage::Parse { spec_id: s, html: h, hash: m, now: n }
        &&& s == spec_id
        &&& h == html
        &&& m@ == hash
        &&& n == now
    }
}

/// The stage at which indexing the page `html` begins.
pub open spec fn index_start<E>(
    spec_id: i64,
    html: String,
    previous_snapshot_id: Option<i64>,
    state: Option<UpdateCheckState>,
    now: Timestamp,
    stage: IndexStage<E>,
) -> bool {
    hashed_start(
        spec_id,
        html,
        content_hash(html@),
        previous_snapshot_id,
        state,
        now,
        stage,
    )
}

/// The stage after `stage` where `reply` is the answer to its command.
pub open spec fn index_step<E>(
    stage: IndexStage<E>,
    reply: Reply<E>,
    next: IndexStage<E>,
) -> bool {
    match (stage, reply) {
        (IndexStage::Finished(_), _) => false,
        (_, Reply::Failed(e)) => next == IndexStage::Finished(Err::<(i64, bool), E>(e)),
        (IndexStage::Unchanged { snapshot_id, .. }, Reply::Done) => next == IndexStage::Finished(
            Ok::<(i64, bool), E>((snapshot_id, false)),
        ),
        (IndexStage::Parse { spec_id, hash, now, .. }, Reply::Parsed(parsed)) => next == (
        IndexStage::<E>::Clear { spec_id, index: NewIndex { hash, now, parsed } }),
        (IndexStage::Clear { index, .. }, Reply::Done) => next == (IndexStage::<E>::Register {
            index,
        }),
        (IndexStage::Register { index }, Reply::Id(spec_id)) => {
            &&& next matches IndexStage::Insert { spec_id: s, sha, commit_date, index: i }
            &&& s == spec_id
            &&& sha@ == "hash:"@ + index.hash@
            &&& commit_date@ == rfc3339_text(index.now@)
            &&& i == index
        },
        (IndexStage::Insert { spec_id, index, .. }, Reply::Id(snapshot_id)) => next == (
        IndexStage::<E>::Sections { spec_id, snapshot_id, index }),
        (IndexStage::Sections { spec_id, snapshot_id, index }, Reply::Done) => next == (
        IndexStage::<E>::References { spec_id, snapshot_id, index }),
        (IndexStage::References { spec_id, snapshot_id, index }, Reply::Done) => next == (
        IndexStage::<E>::IdlDefinitions { spec_id, snapshot_id, index }),
        (IndexStage::IdlDefinitions { spec_id, snapshot_id, index }, Reply::Done) => {
            &&& next matches IndexStage::Record { snapshot_id: n, row }
            &&& n == snapshot_id
            &&& records(row, spec_id, index.now, Some(index.now), Some(index.hash@))
        },
        (IndexStage::Record { snapshot_id, .. }, Reply::Done) => next == IndexStage::Finished(
            Ok::<(i64, bool), E>((snapshot_id, true)),
        ),
        _ => false,
    }
}

/// Begins to index a fresh page with the hash `hash`. Where that is the hash
/// of the last check and this build made the index, only the check is
/// recorded; otherwise the page is parsed and takes the place of all that was
/// stored.
pub fn sync_from_hashed_html<E>(
    spec_id: i64,
    html: String,
    hash: String,
    previous_snapshot_id: Option<i64>,
    state: Option<UpdateCheckState>,
    now: &Timestamp,
) -> (stage: IndexStage<E>)
    ensures
        hashed_start(spec_id, html, hash@, previous_snapshot_id, state, *now, stage),
{
    if let (Some(snapshot_id), Some(state)) = (previous_snapshot_id, &state) {
        let content_unchanged = match &state.content_hash {
            Some(stored) => same_text(stored.as_str(), hash.as_str()),
            None => false,
        };
        if content_unchanged && index_is_current(state) {
            return IndexStage::Unchanged {
                snapshot_id,
                row: store_update_check(spec_id, now, &state.last_indexed, Some(hash)),
            };
        }
    }
    IndexStage::Parse { spec_id, html, hash, now: *now }
}

/// Begins to index a fresh page, which an unchanged hash tells from a changed
/// one.
pub fn sync_from_html<E>(
    spec_id: i64,
    html: String,
    previous_snapshot_id: Option<i64>,
    state: Option<UpdateCheckState>,
    now: &Timestamp,
) -> (stage: IndexStage<E>)
    ensures
        index_start(spec_id, html, previous_snapshot_id, state, *now, stage),
{
    let hash = hash_html(html.as_str());
    sync_from_hashed_html(spec_id, html, hash, previous_snapshot_id, state, now)
}

impl<E> IndexStage<E> {
    /// The command that this stage waits for, if any.
    pub open spec fn pending(self, source: SpecSource) -> Option<Ask> {
        match self {
            IndexStage::Unchanged { row, .. } => Some(row.ask()),
            IndexStage::Parse { html, .. } => Some(
                Ask::ParseSpec {
                    html: html@,
                    spec_name: source.spec_name@,
                    base_url: source.base_url@,
                },
            ),
            IndexStage::Clear { spec_id, .. } => Some(Ask::DeleteSpecData { spec_id }),
            IndexStage::Register { .. } => Some(source.ask()),
            IndexStage::Insert { spec_id, sha, commit_date, .. } => Some(
                Ask::InsertSnapshot { spec_id, sha: sha@, commit_date: commit_date@ },
            ),
            IndexStage::Sections { snapshot_id, index, .. } => Some(
                Ask::InsertSections { snapshot_id, sections: index.parsed.sections@ },
            ),
            IndexStage::References { snapshot_id, index, .. } => Some(
                Ask::InsertReferences { snapshot_id, references: index.parsed.references@ },
            ),
            IndexStage::IdlDefinitions { snapshot_id, index, .. } => Some(
                Ask::InsertIdlDefinitions {
                    snapshot_id,
                    idl_definitions: index.parsed.idl_definitions@,
                },
            ),
            IndexStage::Record { row, .. } => Some(row.ask()),
            IndexStage::Finished(_) => None,
        }
    }

    /// What to do next, or nothing where indexing is over.
    pub fn command<'a>(&'a self, source: &'a SpecSource) -> (command: Option<Command<'a>>)
        ensures
            match command {
                Some(c) => self.pending(*source) == Some(c@),
                None => self.pending(*source) is None,
            },
    {
        match self {
            IndexStage::Unchanged { row, .. } => Some(row.command()),
            IndexStage::Parse { html, .. } => Some(
                Command::ParseSpec {
                    html: html.as_str(),
                    spec_name: source.spec_name.as_str(),
                    base_url: source.base_url.as_str(),
                },
            ),
            IndexStage::Clear { spec_id, .. } => Some(Command::DeleteSpecData { spec_id: *spec_id }),
            IndexStage::Register { .. } => Some(source.command()),
            IndexStage::Insert { spec_id, sha, commit_date, .. } => Some(
                Command::InsertSnapshot {
                    spec_id: *spec_id,
                    sha: sha.as_str(),
                    commit_date: commit_date.as_str(),
                },
            ),
            IndexStage::Sections { snapshot_id, index, .. } => Some(
                Command::InsertSections {
                    snapshot_id: *snapshot_id,
                    sections: &index.parsed.sections,
                },
            ),
            IndexStage::References { snapshot_id, index, .. } => Some(
                Command::InsertReferences {
                    snapshot_id: *snapshot_id,
                    references: &index.parsed.references,
                },
            ),
            IndexStage::IdlDefinitions { snapshot_id, index, .. } => Some(
                Command::InsertIdlDefinitions {
                    snapshot_id: *snapshot_id,
                    idl_definitions: &index.parsed.idl_definitions,
                },
            ),
            IndexStage::Record { row, .. } => Some(row.command()),
            IndexStage::Finished(_) => None,
        }
    }

    /// Goes on with the answer to the command of this stage.
    pub fn advance(self, source: &SpecSource, reply: Reply<E>) -> (next: IndexStage<E>)
        requires
            self.pending(*source) matches Some(ask) && answers(ask, reply),
        ensures
            index_step(self, reply, next),
    {
        match (self, reply) {
            (_, Reply::Failed(e)) => IndexStage::Finished(Err(e)),
            (IndexStage::Unchanged { snapshot_id, .. }, Reply::Done) => IndexStage::Finished(
                Ok((snapshot_id, false)),
            ),
            (
                IndexStage::Parse { spec_id, html: _, hash, now },
                Reply::Parsed(parsed),
            ) => IndexStage::Clear { spec_id, index: NewIndex { hash, now, parsed } },
            (IndexStage::Clear { spec_id: _, index }, Reply::Done) => IndexStage::Register {
                index,
            },
            (IndexStage::Register { index }, Reply::Id(spec_id)) => IndexStage::Insert {
                spec_id,
                sha: String::from_str("hash:").concat(index.hash.as_str()),
                commit_date: index.now.to_rfc3339(),
                index,
            },
            (
                IndexStage::Insert { spec_id, sha: _, commit_date: _, index },
                Reply::Id(snapshot_id),
            ) => IndexStage::Sections { spec_id, snapshot_id, index },
            (
                IndexStage::Sections { spec_id, snapshot_id, index },
                Reply::Done,
            ) => IndexStage::References { spec_id, snapshot_id, index },
            (
                IndexStage::References { spec_id, snapshot_id, index },
                Reply::Done,
            ) => IndexStage::IdlDefinitions { spec_id, snapshot_id, index },
            (
                IndexStage::IdlDefinitions { spec_id, snapshot_id, index },
                Reply::Done,
            ) => IndexStage::Record {
                snapshot_id,
                row: store_update_check(spec_id, &index.now, &Some(index.now), Some(index.hash)),
            },
            (IndexStage::Record { snapshot_id, .. }, Reply::Done) => IndexStage::Finished(
                Ok((snapshot_id, true)),
            ),
            _ => vstd::pervasive::unreached(),
        }
    }
}

impl SpecSource {
    /// The command that stores this specification.
    pub open spec fn ask(self) -> Ask {
        Ask::InsertOrGetSpec {
            name: self.spec_name@,
            base_url: self.base_url@,
            provider: self.provider@,
        }
    }

    pub(crate) fn command(&self) -> (command: Command<'_>)
        ensures
            command@ == self.ask(),
    {
        Command::InsertOrGetSpec {
            name: self.spec_name.as_str(),
            base_url: self.base_url.as_str(),
            provider: self.provider.as_str(),
        }
    }
}

/// A request to bring a specification up to date.
#[derive(Debug, Clone)]
pub struct SyncRequest {
    pub source: SpecSource,
    /// Fetch even where the cache is current, and fail where the fetch fails.
    pub force: bool,
}

/// How a sync stands.
#[derive(Debug)]
pub enum SyncStage<E> {
    /// The specification is being stored.
    Register,
    /// Its snapshot is being looked up.
    FindSnapshot { spec_id: i64 },
    /// Its last check is being looked up.
    FindCheck { spec_id: i64, previous: Option<i64> },
    /// The clock is being read.
    Clock { spec_id: i64, previous: Option<i64>, state: Option<UpdateCheckState> },
    /// The live page is being fetched.
    Fetch {
        spec_id: i64,
        previous: Option<i64>,
        state: Option<UpdateCheckState>,
        now: Timestamp,
    },
    /// The page is being indexed.
    Index(IndexStage<E>),
    /// Over, with the snapshot to serve and whether it is a new one.
    Finished(Result<(i64, bool), E>),
}

/// The cached snapshot can be served without a fetch.
pub open spec fn cache_serves(
    force: bool,
    previous: Option<i64>,
    state: Option<UpdateCheckState>,
    now: Instant,
) -> bool {
    &&& !force
    &&& previous is Some
    &&& state matches Some(s)
    &&& cache_current(s, now)
}

/// The stage after `stage` where `reply` is the answer to its command.
pub open spec fn sync_step<E>(
    request: SyncRequest,
    stage: SyncStage<E>,
    reply: Reply<E>,
    next: SyncStage<E>,
) -> bool {
    match (stage, reply) {
        (SyncStage::Finished(_), _) => false,
        (SyncStage::Fetch { spec_id, previous, state, now }, Reply::Html(html)) => {
            &&& next matches SyncStage::Index(first)
            &&& index_start(spec_id, html, previous, state, now, first)
        },
        (SyncStage::Fetch { previous, .. }, Reply::Failed(e)) => if !request.force
            && previous is Some {
            next == SyncStage::Finished(Ok::<(i64, bool), E>((previous->0, false)))
        } else {
            next == SyncStage::Finished(Err::<(i64, bool), E>(e))
        },
        (SyncStage::Index(at), _) => match next {
            SyncStage::Finished(result) => index_step(at, reply, IndexStage::Finished(result)),
            SyncStage::Index(after) => !(after is Finished) && index_step(at, reply, after),
            _ => false,
        },
        (_, Reply::Failed(e)) => next == SyncStage::Finished(Err::<(i64, bool), E>(e)),
        (SyncStage::Register, Reply::Id(spec_id)) => next == (SyncStage::<E>::FindSnapshot {
            spec_id,
        }),
        (SyncStage::FindSnapshot { spec_id }, Reply::Found(previous)) => next == (
        SyncStage::<E>::FindCheck { spec_id, previous }),
        (SyncStage::FindCheck { spec_id, previous }, Reply::UpdateCheck(state)) => next == (
        SyncStage::<E>::Clock { spec_id, previous, state }),
        (SyncStage::Clock { spec_id, previous, state }, Reply::Clock(now)) => if cache_serves(
            request.force,
            previous,
            state,
            now@,
        ) {
            next == SyncStage::Finished(Ok::<(i64, bool), E>((previous->0, false)))
        } else {
            next == (SyncStage::<E>::Fetch { spec_id, previous, state, now })
        },
        _ => false,
    }
}

/// Begins to bring a specification up to date. Unless forced, a cached
/// snapshot is served while it is current, and where the live page cannot be
/// fetched.
pub fn sync_known_spec<E>(spec_name: &str, base_url: &str, provider_name: &str, force: bool) -> (begun:
    (SyncRequest, SyncStage<E>))
    ensures
        begun.0.source.spec_name@ == spec_name@,
        begun.0.source.base_url@ == base_url@,
        begun.0.source.provider@ == provider_name@,
        begun.0.force == force,
        begun.1 == SyncStage::<E>::Register,
{
    let source = SpecSource {
        spec_name: spec_name.to_owned(),
        base_url: base_url.to_owned(),
        provider: provider_name.to_owned(),
    };
    (SyncRequest { source, force }, SyncStage::Register)
}

/// Begins to bring a specification up to date that is given by its URL, with
/// the provider of all such specifications.
pub fn sync_dynamic_spec<E>(spec_name: &str, base_url: &str, force: bool) -> (begun: (
    SyncRequest,
    SyncStage<E>,
))
    ensures
        begun.0.source.spec_name@ == spec_name@,
        begun.0.source.base_url@ == base_url@,
        begun.0.source.provider@ == DYNAMIC_PROVIDER@,
        begun.0.force == force,
        begun.1 == SyncStage::<E>::Register,
{
    sync_known_spec(spec_name, base_url, DYNAMIC_PROVIDER, force)
}

impl<E> SyncStage<E> {
    /// The command that this stage waits for, if any.
    pub open spec fn pending(self, request: SyncRequest) -> Option<Ask> {
        match self {
            SyncStage::Register => Some(request.source.ask()),
            SyncStage::FindSnapshot { .. } => Some(
                Ask::GetSnapshot { spec_name: request.source.spec_name@ },
            ),
            SyncStage::FindCheck { spec_id, .. } => Some(Ask::GetUpdateCheck { spec_id }),
            SyncStage::Clock { .. } => Some(Ask::ReadClock),
            SyncStage::Fetch { .. } => Some(Ask::FetchLive { base_url: request.source.base_url@ }),
            SyncStage::Index(stage) => stage.pending(request.source),
            SyncStage::Finished(_) => None,
        }
    }

    /// What to do next, or nothing where the sync is over.
    pub fn command<'a>(&'a self, request: &'a SyncRequest) -> (command: Option<Command<'a>>)
        ensures
            match command {
                Some(c) => self.pending(*request) == Some(c@),
                None => self.pending(*request) is None,
            },
    {
        match self {
            SyncStage::Register => Some(request.source.command()),
            SyncStage::FindSnapshot { .. } => Some(
                Command::GetSnapshot { spec_name: request.source.spec_name.as_str() },
            ),
            SyncStage::FindCheck { spec_id, .. } => Some(
                Command::GetUpdateCheck { spec_id: *spec_id },
            ),
            SyncStage::Clock { .. } => Some(Command::ReadClock),
            SyncStage::Fetch { .. } => Some(
                Command::FetchLive { base_url: request.source.base_url.as_str() },
            ),
            SyncStage::Index(stage) => stage.command(&request.source),
            SyncStage::Finished(_) => None,
        }
    }

    /// Goes on with the answer to the command of this stage.
    pub fn advance(self, request: &SyncRequest, reply: Reply<E>) -> (next: SyncStage<E>)
        requires
            self.pending(*request) matches Some(ask) && answers(ask, reply),
        ensures
            sync_step(*request, self, reply, next),
    {
        match (self, reply) {
            (SyncStage::Fetch { spec_id, previous, state, now }, reply) => {
                let fetched = match reply {
                    Reply::Html(html) => Ok(html),
                    Reply::Failed(e) => Err(e),
                    _ => vstd::pervasive::unreached(),
                };
                match resolve_fetch(fetched, previous, !request.force) {
                    Ok(FetchOutcome::Fresh(html)) => SyncStage::Index(
                        sync_from_html(spec_id, html, previous, state, &now),
                    ),
                    Ok(FetchOutcome::ServeCached(snapshot_id)) => SyncStage::Finished(
                        Ok((snapshot_id, false)),
                    ),
                    Err(e) => SyncStage::Finished(Err(e)),
                }
            },
            (SyncStage::Index(stage), reply) => match stage.advance(&request.source, reply) {
                IndexStage::Finished(result) => SyncStage::Finished(result),
                stage => SyncStage::Index(stage),
            },
            (_, Reply::Failed(e)) => SyncStage::Finished(Err(e)),
            (SyncStage::Register, Reply::Id(spec_id)) => SyncStage::FindSnapshot { spec_id },
            (
                SyncStage::FindSnapshot { spec_id },
                Reply::Found(previous),
            ) => SyncStage::FindCheck { spec_id, previous },
            (
                SyncStage::FindCheck { spec_id, previous },
                Reply::UpdateCheck(state),
            ) => SyncStage::Clock { spec_id, previous, state },
            (SyncStage::Clock { spec_id, previous, state }, Reply::Clock(now)) => {
                if !request.force {
                    if let (Some(snapshot_id), Some(known)) = (previous, &state) {
                        if cache_is_current(known, &now) {
                            return SyncStage::Finished(Ok((snapshot_id, false)));
                        }
                    }
                }
                SyncStage::Fetch { spec_id, previous, state, now }
            },
            _ => vstd::pervasive::unreached(),
        }
    }
}

/// A text that may be missing is missing or there with all its characters.
pub proof fn law_optional_strings_are_kept(text: String)
    ensures
        optional_string(None) == None::<Seq<char>>,
        optional_string(Some(text)) == Some(text@),
{
}

/// What is recorded of a check, whatever was indexed and hashed: the
/// specification, the RFC 3339 forms of both times as far as they are there,
/// the hash as it is, and the index version of this build.
pub proof fn law_rows_hold_what_was_checked(
    row: CheckRow,
    spec_id: i64,
    now: Timestamp,
    last_indexed: Option<Timestamp>,
    hash: Option<Seq<char>>,
)
    requires
        records(row, spec_id, now, last_indexed, hash),
    ensures
        row.spec_id == spec_id,
        row.checked@ == rfc3339(now@.seconds as i64, now@.nanos as u32),
        row.indexed is Some <==> last_indexed is Some,
        last_indexed matches Some(at) ==> row.indexed->0@ == rfc3339(
            at@.seconds as i64,
            at@.nanos as u32,
        ),
        row.content_hash is Some <==> hash is Some,
        hash matches Some(h) ==> row.content_hash->0@ == h,
        row.index_version is Some,
        row.index_version->0@ == INDEX_VERSION@,
{
}

/// A row is stored as it is.
pub proof fn law_rows_are_stored_as_they_are(row: CheckRow)
    ensures
        row.ask() is RecordUpdateCheck,
        row.ask()->RecordUpdateCheck_spec_id == row.spec_id,
        row.ask()->checked == row.checked@,
        row.ask()->indexed is Some <==> row.indexed is Some,
        row.indexed matches Some(t) ==> row.ask()->indexed->0 == t@,
        row.ask()->content_hash is Some <==> row.content_hash is Some,
        row.content_hash matches Some(t) ==> row.ask()->content_hash->0 == t@,
        row.ask()->index_version is Some <==> row.index_version is Some,
        row.index_version matches Some(t) ==> row.ask()->index_version->0 == t@,
{
}

/// Whether a page is parsed is decided by its hash, whatever that is: it is not
/// parsed exactly where there is a snapshot, and the last check has that very
/// hash and the index version of this build. Then the check is recorded with
/// the hash, and the snapshot is kept; otherwise page, hash, specification and
/// time go on as they are.
pub proof fn law_hash_and_version_decide<E>(
    spec_id: i64,
    html: String,
    hash: Seq<char>,
    previous: Option<i64>,
    state: Option<UpdateCheckState>,
    now: Timestamp,
    stage: IndexStage<E>,
)
    requires
        hashed_start(spec_id, html, hash, previous, state, now, stage),
    ensures
        stage is Unchanged <==> previous is Some && state is Some && state->0.content_hash is Some
            && state->0.content_hash->0@ == hash && state->0.index_version is Some
            && state->0.index_version->0@ == INDEX_VERSION@,
        stage is Unchanged || stage is Parse,
        stage matches IndexStage::Unchanged { snapshot_id, row } ==> previous == Some(snapshot_id)
            && row.spec_id == spec_id && row.content_hash is Some && row.content_hash->0@ == hash
            && row.checked@ == rfc3339(now@.seconds as i64, now@.nanos as u32)
            && row.index_version is Some && row.index_version->0@ == INDEX_VERSION@,
        stage matches IndexStage::Parse { spec_id: s, html: h, hash: m, now: n } ==> s == spec_id
            && h == html && m@ == hash && n == now,
{
    if let IndexStage::Unchanged { row, .. } = stage {
        law_rows_hold_what_was_checked(row, spec_id, now, state->0.last_indexed, Some(hash));
    }
}

} // verus!
